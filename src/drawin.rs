use vstd::prelude::*;
use crate::drawable::{saturating_inc, Drawable, DrawableView, Surface};
use crate::geometry::{clamp_resize, Area, Origin, Size};
use crate::class::{PropertyError};
use crate::signal::{SignalBus, SignalBusView};

verus! {

/// Native state of a drawin: flags, cursor, geometry, whether the drawable is
/// stale, the renderer's texture and the surface cached for the renderer.
pub struct DrawinState {
    ontop: bool,
    visible: bool,
    cursor: String,
    geometry: Area,
    geometry_dirty: bool,
    texture: Option<u64>,
    surface: Option<Surface>,
    syncs: u64,
}

/// An overlay surface: its native state, the drawable that holds its pixels
/// and the signals connected to it.
pub struct Drawin {
    state: DrawinState,
    drawable: Drawable,
    signals: SignalBus,
}

/// A drawin as the contracts see it. `syncs` counts resynchronizations of
/// the drawable (it stops at `u64::MAX`); `texture` is the renderer's handle
/// for the uploaded surface; `cursor` names the pointer image shown over it.
pub struct DrawinView {
    pub ontop: bool,
    pub visible: bool,
    pub cursor: Seq<char>,
    pub geometry: Area,
    pub geometry_dirty: bool,
    pub texture: Option<u64>,
    pub surface: Option<Surface>,
    pub syncs: u64,
    pub drawable: DrawableView,
    pub signals: SignalBusView,
}

/// The arguments of the drawin constructor: each field that is present is
/// set, in the order x, y, width, height, visible.
#[derive(Clone, Copy, Debug, PartialEq, Eq, Structural)]
pub struct DrawinArgs {
    pub x: Option<i32>,
    pub y: Option<i32>,
    pub width: Option<i32>,
    pub height: Option<i32>,
    pub visible: Option<bool>,
}

/// The table handed to the `geometry` accessor: fields left out keep their
/// value, and a width or height that is left out or not positive is kept.
#[derive(Clone, Copy, Debug, PartialEq, Eq, Structural)]
pub struct GeometryArgs {
    pub x: Option<i32>,
    pub y: Option<i32>,
    pub width: Option<i32>,
    pub height: Option<i32>,
}

/// The space a drawin reserves at the edges of its output.
#[derive(Clone, Copy, Debug, PartialEq, Eq, Structural)]
pub struct Struts {
    pub left: i32,
    pub right: i32,
    pub top: i32,
    pub bottom: i32,
}

/// The geometry of a drawin that no argument has set.
pub open spec fn default_geometry() -> Area {
    Area { origin: Origin { x: 0, y: 0 }, size: Size { width: 1, height: 1 } }
}

/// A drawin as allocated, before its constructor arguments are applied:
/// unmapped, at the default geometry, with a drawable that has drawn nothing.
pub open spec fn fresh_drawin() -> DrawinView {
    DrawinView {
        ontop: false,
        visible: false,
        cursor: Seq::empty(),
        geometry: default_geometry(),
        geometry_dirty: true,
        texture: None,
        surface: None,
        syncs: 0,
        drawable: DrawableView { geometry: default_geometry(), surface: None, regenerations: 0 },
        signals: SignalBusView { next_id: 0, connections: Seq::empty() },
    }
}

pub open spec fn unwrap_or<T>(o: Option<T>, d: T) -> T {
    match o {
        Some(v) => v,
        None => d,
    }
}

impl DrawinView {
    pub open spec fn well_formed(self) -> bool {
        &&& self.geometry.has_positive_size()
        &&& self.drawable.well_formed()
        &&& self.signals.well_formed()
        &&& !self.geometry_dirty ==> self.drawable.geometry == self.geometry && self.surface
            == self.drawable.surface
    }


    /// Resynchronization: a stale drawable takes the current geometry, and
    /// the drawable's surface becomes the one the renderer reads.
    pub open spec fn update_drawing(self) -> DrawinView {
        let d = if self.geometry_dirty {
            self.drawable.set_geometry(self.geometry)
        } else {
            self.drawable
        };
        DrawinView {
            geometry_dirty: false,
            surface: d.surface,
            syncs: saturating_inc(self.syncs),
            drawable: d,
            ..self
        }
    }

    pub open spec fn resize(self, requested: Area) -> DrawinView {
        DrawinView {
            geometry: clamp_resize(self.geometry, requested),
            geometry_dirty: true,
            ..self
        }.update_drawing()
    }

    /// Mapping resynchronizes once; mapping a mapped drawin does nothing;
    /// unmapping never resynchronizes.
    pub open spec fn set_visible(self, visible: bool) -> DrawinView {
        if visible {
            if self.visible {
                self
            } else {
                DrawinView { visible: true, ..self }.update_drawing()
            }
        } else {
            DrawinView { visible: false, ..self }
        }
    }

    pub open spec fn set_x(self, x: i32) -> DrawinView {
        self.resize(Area { origin: Origin { x, y: self.geometry.origin.y }, size: self.geometry.size })
    }

    pub open spec fn set_y(self, y: i32) -> DrawinView {
        self.resize(Area { origin: Origin { x: self.geometry.origin.x, y }, size: self.geometry.size })
    }

    /// A width that is not positive is dropped.
    pub open spec fn set_width(self, width: i32) -> DrawinView {
        if width > 0 {
            self.resize(
                Area {
                    origin: self.geometry.origin,
                    size: Size { width, height: self.geometry.size.height },
                },
            )
        } else {
            self
        }
    }

    /// A height that is not positive is dropped.
    pub open spec fn set_height(self, height: i32) -> DrawinView {
        if height > 0 {
            self.resize(
                Area {
                    origin: self.geometry.origin,
                    size: Size { width: self.geometry.size.width, height },
                },
            )
        } else {
            self
        }
    }

    /// The rectangle that the `geometry` accessor asks for.
    pub open spec fn requested_geometry(self, args: GeometryArgs) -> Area {
        Area {
            origin: Origin {
                x: unwrap_or(args.x, self.geometry.origin.x),
                y: unwrap_or(args.y, self.geometry.origin.y),
            },
            size: Size { width: unwrap_or(args.width, 0), height: unwrap_or(args.height, 0) },
        }
    }

    /// The `geometry` accessor: with a table it resizes, without one it only
    /// reads.
    pub open spec fn apply_geometry(self, args: Option<GeometryArgs>) -> DrawinView {
        match args {
            Some(a) => self.resize(self.requested_geometry(a)),
            None => self,
        }
    }

    /// The constructor's arguments applied in declaration order.
    pub open spec fn initialize(self, args: DrawinArgs) -> DrawinView {
        let v1 = match args.x {
            Some(x) => self.set_x(x),
            None => self,
        };
        let v2 = match args.y {
            Some(y) => v1.set_y(y),
            None => v1,
        };
        let v3 = match args.width {
            Some(w) => v2.set_width(w),
            None => v2,
        };
        let v4 = match args.height {
            Some(h) => v3.set_height(h),
            None => v3,
        };
        match args.visible {
            Some(v) => v4.set_visible(v),
            None => v4,
        }
    }
}


impl View for Drawin {
    type V = DrawinView;

    closed spec fn view(&self) -> DrawinView {
        DrawinView {
            ontop: self.state.ontop,
            visible: self.state.visible,
            cursor: self.state.cursor@,
            geometry: self.state.geometry,
            geometry_dirty: self.state.geometry_dirty,
            texture: self.state.texture,
            surface: self.state.surface,
            syncs: self.state.syncs,
            drawable: self.drawable@,
            signals: self.signals@,
        }
    }
}

impl Drawin {
    fn allocate() -> (r: Drawin)
        ensures
            r@ == fresh_drawin(),
    {
        let geometry = Area { origin: Origin { x: 0, y: 0 }, size: Size { width: 1, height: 1 } };
        let r = Drawin {
            state: DrawinState {
                ontop: false,
                visible: false,
                cursor: String::new(),
                geometry,
                geometry_dirty: true,
                texture: None,
                surface: None,
                syncs: 0,
            },
            drawable: Drawable::new(geometry),
            signals: SignalBus::new(),
        };
        proof {
            assert(r@.signals.connections =~= Seq::<crate::signal::ConnectionView>::empty());
        }
        r
    }

    /// Resynchronizes the drawable with the geometry if it is stale, and
    /// caches its surface for the renderer.
    fn update_drawing(&mut self)
        requires
            old(self)@.well_formed(),
        ensures
            final(self)@ == old(self)@.update_drawing(),
            final(self)@.well_formed(),
    {
        if self.state.geometry_dirty {
            self.drawable.set_geometry(self.state.geometry);
            self.state.geometry_dirty = false;
        }
        self.state.surface = self.drawable.surface();
        if self.state.syncs < u64::MAX {
            self.state.syncs = self.state.syncs + 1;
        }
    }

    /// Moves and resizes the drawin; a width or height that is not positive
    /// keeps its prior value. Always resynchronizes.
    pub fn resize(&mut self, requested: Area)
        requires
            old(self)@.well_formed(),
        ensures
            final(self)@ == old(self)@.resize(requested),
            final(self)@.well_formed(),
    {
        self.state.geometry = self.state.geometry.clamped_resize(requested);
        self.state.geometry_dirty = true;
        self.update_drawing();
    }

    /// Maps (true) or unmaps (false) the drawin.
    pub fn set_visible(&mut self, visible: bool)
        requires
            old(self)@.well_formed(),
        ensures
            final(self)@ == old(self)@.set_visible(visible),
            final(self)@.well_formed(),
    {
        if visible {
            if !self.state.visible {
                self.state.visible = true;
                self.update_drawing();
            }
        } else {
            self.state.visible = false;
        }
    }

    pub fn get_visible(&self) -> (r: bool)
        ensures
            r == self@.visible,
    {
        self.state.visible
    }

    pub fn get_geometry(&self) -> (r: Area)
        ensures
            r == self@.geometry,
    {
        self.state.geometry
    }

    pub fn get_x(&self) -> (r: i32)
        ensures
            r == self@.geometry.origin.x,
    {
        self.state.geometry.origin.x
    }

    pub fn get_y(&self) -> (r: i32)
        ensures
            r == self@.geometry.origin.y,
    {
        self.state.geometry.origin.y
    }

    pub fn get_width(&self) -> (r: i32)
        ensures
            r == self@.geometry.size.width,
    {
        self.state.geometry.size.width
    }

    pub fn get_height(&self) -> (r: i32)
        ensures
            r == self@.geometry.size.height,
    {
        self.state.geometry.size.height
    }

    pub fn set_x(&mut self, x: i32)
        requires
            old(self)@.well_formed(),
        ensures
            final(self)@ == old(self)@.set_x(x),
            final(self)@.well_formed(),
    {
        let mut geo = self.state.geometry;
        geo.origin.x = x;
        self.resize(geo);
    }

    pub fn set_y(&mut self, y: i32)
        requires
            old(self)@.well_formed(),
        ensures
            final(self)@ == old(self)@.set_y(y),
            final(self)@.well_formed(),
    {
        let mut geo = self.state.geometry;
        geo.origin.y = y;
        self.resize(geo);
    }

    /// Sets the width; one that is not positive is dropped.
    pub fn set_width(&mut self, width: i32)
        requires
            old(self)@.well_formed(),
        ensures
            final(self)@ == old(self)@.set_width(width),
            final(self)@.well_formed(),
    {
        if width > 0 {
            let mut geo = self.state.geometry;
            geo.size.width = width;
            self.resize(geo);
        }
    }

    /// Sets the height; one that is not positive is dropped.
    pub fn set_height(&mut self, height: i32)
        requires
            old(self)@.well_formed(),
        ensures
            final(self)@ == old(self)@.set_height(height),
            final(self)@.well_formed(),
    {
        if height > 0 {
            let mut geo = self.state.geometry;
            geo.size.height = height;
            self.resize(geo);
        }
    }

    /// Constructs a drawin: allocates it unmapped at the default geometry,
    /// then applies each argument that is present, in declaration order.
    pub fn new(args: &DrawinArgs) -> (r: Drawin)
        ensures
            r@ == fresh_drawin().initialize(*args),
            r@.well_formed(),
    {
        let mut d = Drawin::allocate();
        if let Some(x) = args.x {
            d.set_x(x);
        }
        if let Some(y) = args.y {
            d.set_y(y);
        }
        if let Some(w) = args.width {
            d.set_width(w);
        }
        if let Some(h) = args.height {
            d.set_height(h);
        }
        if let Some(v) = args.visible {
            d.set_visible(v);
        }
        d
    }

    /// The script's `geometry` accessor: with a table, moves and resizes
    /// (fields left out keep their value); returns the geometry after.
    pub fn geometry(&mut self, args: Option<GeometryArgs>) -> (r: Area)
        requires
            old(self)@.well_formed(),
        ensures
            final(self)@ == old(self)@.apply_geometry(args),
            final(self)@.well_formed(),
            r == final(self)@.geometry,
    {
        if let Some(a) = args {
            let cur = self.state.geometry;
            let x = match a.x {
                Some(x) => x,
                None => cur.origin.x,
            };
            let y = match a.y {
                Some(y) => y,
                None => cur.origin.y,
            };
            let width = match a.width {
                Some(w) => w,
                None => 0,
            };
            let height = match a.height {
                Some(h) => h,
                None => 0,
            };
            self.resize(Area { origin: Origin { x, y }, size: Size { width, height } });
        }
        self.state.geometry
    }

    /// The space reserved on the drawin's output: none.
    pub fn struts(&self) -> (r: Struts)
        ensures
            r == (Struts { left: 0, right: 0, top: 0, bottom: 0 }),
    {
        Struts { left: 0, right: 0, top: 0, bottom: 0 }
    }

    /// The drawable associated with this drawin.
    pub fn drawable(&self) -> (r: &Drawable)
        ensures
            r@ == self@.drawable,
    {
        &self.drawable
    }

    /// The surface cached at the last resynchronization, which the renderer
    /// reads.
    pub fn surface(&self) -> (r: Option<Surface>)
        ensures
            r == self@.surface,
    {
        self.state.surface
    }

    /// The renderer's texture for this drawin, if it uploaded one.
    pub fn texture(&self) -> (r: Option<u64>)
        ensures
            r == self@.texture,
    {
        self.state.texture
    }

    pub fn set_texture(&mut self, texture: Option<u64>)
        ensures
            final(self)@ == (DrawinView { texture, ..old(self)@ }),
    {
        self.state.texture = texture;
    }

    /// Whether the drawable still waits for the current geometry.
    pub fn geometry_dirty(&self) -> (r: bool)
        ensures
            r == self@.geometry_dirty,
    {
        self.state.geometry_dirty
    }

    /// How many times the drawable was resynchronized.
    pub fn syncs(&self) -> (r: u64)
        ensures
            r == self@.syncs,
    {
        self.state.syncs
    }

    /// Connects `callback` to the signal `name` of this drawin.
    pub fn connect_signal(&mut self, name: String, callback: u64) -> (id: u64)
        requires
            old(self)@.well_formed(),
            old(self)@.signals.can_connect(),
        ensures
            id == old(self)@.signals.next_id,
            final(self)@ == (DrawinView {
                signals: old(self)@.signals.connect(name@, callback),
                ..old(self)@
            }),
            final(self)@.well_formed(),
    {
        self.signals.connect(name, callback)
    }

    /// Disconnects the earliest connection of `callback` to `name`.
    pub fn disconnect_signal(&mut self, name: &String, callback: u64) -> (removed: bool)
        requires
            old(self)@.well_formed(),
        ensures
            final(self)@.well_formed(),
            final(self)@ == (DrawinView { signals: final(self)@.signals, ..old(self)@ }),
            removed == exists|k: int|
                0 <= k < old(self)@.signals.connections.len()
                    && old(self)@.signals.connections[k].name == name@
                    && old(self)@.signals.connections[k].callback == callback,
            removed ==> exists|k: int|
                0 <= k < old(self)@.signals.connections.len()
                    && old(self)@.signals.connections[k].name == name@
                    && old(self)@.signals.connections[k].callback == callback && (forall|j: int|
                    0 <= j < k ==> !(old(self)@.signals.connections[j].name == name@
                        && old(self)@.signals.connections[j].callback == callback))
                    && final(self)@.signals.connections == old(self)@.signals.connections.remove(k),
            final(self)@.signals.next_id == old(self)@.signals.next_id,
            !removed ==> final(self)@ == old(self)@,
    {
        self.signals.disconnect_callback(name, callback)
    }

    /// The callbacks to run for signal `name`, in connection order.
    pub fn emit_signal(&self, name: &String) -> (r: Vec<u64>)
        ensures
            r@ == self@.signals.emit(name@),
    {
        self.signals.emit(name)
    }
}

/// A value that a script reads from or writes to a property.
#[derive(Clone, Copy, Debug, PartialEq, Eq, Structural)]
pub enum Value {
    Integer(i32),
    Boolean(bool),
}

/// The declared properties of a drawin.
#[derive(Clone, Copy, Debug, PartialEq, Eq, Structural)]
pub enum DrawinProperty {
    X,
    Y,
    Width,
    Height,
    Visible,
}

/// The property that a script names, matched exactly and case-sensitively.
pub open spec fn property_named(name: Seq<char>) -> Option<DrawinProperty> {
    if name == "x"@ {
        Some(DrawinProperty::X)
    } else if name == "y"@ {
        Some(DrawinProperty::Y)
    } else if name == "width"@ {
        Some(DrawinProperty::Width)
    } else if name == "height"@ {
        Some(DrawinProperty::Height)
    } else if name == "visible"@ {
        Some(DrawinProperty::Visible)
    } else {
        None
    }
}

fn is_named(name: &String, literal: &str) -> (r: bool)
    ensures
        r == (name@ == literal@),
{
    let owned = literal.to_owned();
    name.eq(&owned)
}

impl DrawinProperty {
    pub fn from_name(name: &String) -> (r: Option<DrawinProperty>)
        ensures
            r == property_named(name@),
    {
        if is_named(name, "x") {
            Some(DrawinProperty::X)
        } else if is_named(name, "y") {
            Some(DrawinProperty::Y)
        } else if is_named(name, "width") {
            Some(DrawinProperty::Width)
        } else if is_named(name, "height") {
            Some(DrawinProperty::Height)
        } else if is_named(name, "visible") {
            Some(DrawinProperty::Visible)
        } else {
            None
        }
    }
}

impl DrawinView {
    /// What reading `property` gives.
    pub open spec fn read(self, property: DrawinProperty) -> Value {
        match property {
            DrawinProperty::X => Value::Integer(self.geometry.origin.x),
            DrawinProperty::Y => Value::Integer(self.geometry.origin.y),
            DrawinProperty::Width => Value::Integer(self.geometry.size.width),
            DrawinProperty::Height => Value::Integer(self.geometry.size.height),
            DrawinProperty::Visible => Value::Boolean(self.visible),
        }
    }

    /// What writing `value` to `property` does, or why it is refused.
    pub open spec fn write(self, property: DrawinProperty, value: Value) -> Result<
        DrawinView,
        PropertyError,
    > {
        match (property, value) {
            (DrawinProperty::X, Value::Integer(v)) => Ok(self.set_x(v)),
            (DrawinProperty::Y, Value::Integer(v)) => Ok(self.set_y(v)),
            (DrawinProperty::Width, Value::Integer(v)) => Ok(self.set_width(v)),
            (DrawinProperty::Height, Value::Integer(v)) => Ok(self.set_height(v)),
            (DrawinProperty::Visible, Value::Boolean(b)) => Ok(self.set_visible(b)),
            _ => Err(PropertyError::TypeMismatch),
        }
    }

    /// Reading the property called `name`.
    pub open spec fn read_named(self, name: Seq<char>) -> Result<Value, PropertyError> {
        match property_named(name) {
            Some(p) => Ok(self.read(p)),
            None => Err(PropertyError::UnknownProperty),
        }
    }

    /// Writing the property called `name`.
    pub open spec fn write_named(self, name: Seq<char>, value: Value) -> Result<
        DrawinView,
        PropertyError,
    > {
        match property_named(name) {
            Some(p) => self.write(p, value),
            None => Err(PropertyError::UnknownProperty),
        }
    }
}

impl Drawin {
    /// Reads the property called `name`.
    pub fn get_property(&self, name: &String) -> (r: Result<Value, PropertyError>)
        ensures
            r == self@.read_named(name@),
    {
        match DrawinProperty::from_name(name) {
            Some(DrawinProperty::X) => Ok(Value::Integer(self.get_x())),
            Some(DrawinProperty::Y) => Ok(Value::Integer(self.get_y())),
            Some(DrawinProperty::Width) => Ok(Value::Integer(self.get_width())),
            Some(DrawinProperty::Height) => Ok(Value::Integer(self.get_height())),
            Some(DrawinProperty::Visible) => Ok(Value::Boolean(self.get_visible())),
            None => Err(PropertyError::UnknownProperty),
        }
    }

    /// Writes `value` to the property called `name`. Out-of-domain sizes are
    /// dropped as the property's writer says; a refused write changes nothing.
    pub fn set_property(&mut self, name: &String, value: Value) -> (r: Result<(), PropertyError>)
        requires
            old(self)@.well_formed(),
        ensures
            final(self)@.well_formed(),
            match old(self)@.write_named(name@, value) {
                Ok(v) => r is Ok && final(self)@ == v,
                Err(e) => r == Err::<(), PropertyError>(e) && final(self)@ == old(self)@,
            },
    {
        match (DrawinProperty::from_name(name), value) {
            (Some(DrawinProperty::X), Value::Integer(v)) => self.set_x(v),
            (Some(DrawinProperty::Y), Value::Integer(v)) => self.set_y(v),
            (Some(DrawinProperty::Width), Value::Integer(v)) => self.set_width(v),
            (Some(DrawinProperty::Height), Value::Integer(v)) => self.set_height(v),
            (Some(DrawinProperty::Visible), Value::Boolean(b)) => self.set_visible(b),
            (Some(_), _) => return Err(PropertyError::TypeMismatch),
            (None, _) => return Err(PropertyError::UnknownProperty),
        }
        Ok(())
    }
}

/// A resize whose width and height are both non-positive moves the drawin to
/// the requested origin and keeps its size, and leaves it synchronized.
pub proof fn lemma_resize_keeps_size(d: DrawinView, requested: Area)
    requires
        d.well_formed(),
        requested.size.width <= 0,
        requested.size.height <= 0,
    ensures
        d.resize(requested).geometry.size == d.geometry.size,
        d.resize(requested).geometry.origin == requested.origin,
        d.resize(requested).well_formed(),
        !d.resize(requested).geometry_dirty,
{
}

/// Mapping an unmapped drawin resynchronizes its drawable exactly once;
/// mapping it again resynchronizes nothing more.
pub proof fn lemma_map_resyncs_once(d: DrawinView)
    requires
        d.well_formed(),
        !d.visible,
        d.syncs < u64::MAX,
    ensures
        d.set_visible(true).syncs == d.syncs + 1,
        d.set_visible(true).visible,
        d.set_visible(true).set_visible(true) == d.set_visible(true),
{
}

/// Mapping a mapped drawin changes nothing, whatever happened to it since it
/// was mapped.
pub proof fn lemma_map_when_mapped(d: DrawinView)
    requires
        d.visible,
    ensures
        d.set_visible(true) == d,
{
}

/// Unmapping never resynchronizes.
pub proof fn lemma_unmap_no_resync(d: DrawinView)
    ensures
        d.set_visible(false).syncs == d.syncs,
        d.set_visible(false).drawable == d.drawable,
        !d.set_visible(false).visible,
{
}

/// A positive width that is written is read back; a width that is not
/// positive leaves the drawin unchanged.
pub proof fn lemma_width_round_trip(d: DrawinView, width: i32)
    ensures
        width > 0 ==> (d.write_named("width"@, Value::Integer(width)) matches Ok(n)
            && n.read_named("width"@) == Ok::<Value, PropertyError>(Value::Integer(width))),
        width <= 0 ==> d.write_named("width"@, Value::Integer(width)) == Ok::<
            DrawinView,
            PropertyError,
        >(d),
{
    reveal_strlit("x");
    reveal_strlit("y");
    reveal_strlit("width");
    assert("width"@.len() != "x"@.len() && "width"@.len() != "y"@.len());
}

/// A positive height that is written is read back; a height that is not
/// positive leaves the drawin unchanged.
pub proof fn lemma_height_round_trip(d: DrawinView, height: i32)
    ensures
        height > 0 ==> (d.write_named("height"@, Value::Integer(height)) matches Ok(n)
            && n.read_named("height"@) == Ok::<Value, PropertyError>(Value::Integer(height))),
        height <= 0 ==> d.write_named("height"@, Value::Integer(height)) == Ok::<
            DrawinView,
            PropertyError,
        >(d),
{
    reveal_strlit("x");
    reveal_strlit("y");
    reveal_strlit("width");
    reveal_strlit("height");
    assert("height"@.len() != "x"@.len() && "height"@.len() != "y"@.len()
        && "height"@.len() != "width"@.len());
}

/// The `geometry` accessor with only an origin moves the drawin and keeps
/// its size.
pub proof fn lemma_geometry_origin_only(d: DrawinView, x: i32, y: i32)
    requires
        d.well_formed(),
    ensures
        d.apply_geometry(
            Some(GeometryArgs { x: Some(x), y: Some(y), width: None, height: None }),
        ).geometry == (Area { origin: Origin { x, y }, size: d.geometry.size }),
{
}

} // verus!
