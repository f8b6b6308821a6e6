use vstd::prelude::*;
use crate::geometry::Area;

verus! {

/// The pixel surface that a drawable last generated: `serial` counts the
/// generations, so a newer surface never compares equal to an older one.
#[derive(Clone, Copy, Debug, PartialEq, Eq, Structural)]
pub struct Surface {
    pub serial: u64,
    pub width: i32,
    pub height: i32,
}

/// `n + 1`, or `n` when that does not fit.
pub open spec fn saturating_inc(n: u64) -> u64 {
    if n < u64::MAX {
        (n + 1) as u64
    } else {
        n
    }
}

pub struct DrawableView {
    pub geometry: Area,
    pub surface: Option<Surface>,
    pub regenerations: u64,
}

impl DrawableView {
    /// The surface, once there is one, is the latest generation and has the
    /// drawable's size.
    pub open spec fn well_formed(self) -> bool {
        &&& (self.regenerations == 0 <==> self.surface is None)
        &&& self.surface matches Some(s) ==> s == (Surface {
            serial: self.regenerations,
            width: self.geometry.size.width,
            height: self.geometry.size.height,
        })
    }

    pub open spec fn set_geometry(self, area: Area) -> DrawableView {
        DrawableView {
            geometry: area,
            surface: Some(
                Surface {
                    serial: saturating_inc(self.regenerations),
                    width: area.size.width,
                    height: area.size.height,
                },
            ),
            regenerations: saturating_inc(self.regenerations),
        }
    }
}

/// The off-screen surface of a drawin, regenerated at the new size whenever
/// its geometry is set.
#[derive(Clone, Copy, Debug, PartialEq, Eq, Structural)]
pub struct Drawable {
    geometry: Area,
    surface: Option<Surface>,
    regenerations: u64,
}

impl View for Drawable {
    type V = DrawableView;

    closed spec fn view(&self) -> DrawableView {
        DrawableView {
            geometry: self.geometry,
            surface: self.surface,
            regenerations: self.regenerations,
        }
    }
}

impl Drawable {
    /// A drawable of the given geometry that has drawn nothing yet.
    pub fn new(geometry: Area) -> (r: Drawable)
        ensures
            r@ == (DrawableView { geometry, surface: None, regenerations: 0 }),
            r@.well_formed(),
    {
        Drawable { geometry, surface: None, regenerations: 0 }
    }

    /// Takes a new geometry and regenerates the surface at its size.
    pub fn set_geometry(&mut self, area: Area)
        ensures
            final(self)@ == old(self)@.set_geometry(area),
    {
        let serial = if self.regenerations < u64::MAX {
            self.regenerations + 1
        } else {
            self.regenerations
        };
        self.geometry = area;
        self.regenerations = serial;
        self.surface = Some(Surface { serial, width: area.size.width, height: area.size.height });
    }

    pub fn geometry(&self) -> (r: Area)
        ensures
            r == self@.geometry,
    {
        self.geometry
    }

    pub fn surface(&self) -> (r: Option<Surface>)
        ensures
            r == self@.surface,
    {
        self.surface
    }

    /// How many surfaces this drawable has generated.
    pub fn regenerations(&self) -> (n: u64)
        ensures
            n == self@.regenerations,
    {
        self.regenerations
    }
}

} // verus!
