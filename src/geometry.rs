use vstd::prelude::*;

verus! {

/// Top-left corner of a rectangle, in output coordinates.
#[derive(Clone, Copy, Debug, PartialEq, Eq, Structural)]
pub struct Origin {
    pub x: i32,
    pub y: i32,
}

/// Extent of a rectangle.
#[derive(Clone, Copy, Debug, PartialEq, Eq, Structural)]
pub struct Size {
    pub width: i32,
    pub height: i32,
}

/// A positioned rectangle.
#[derive(Clone, Copy, Debug, PartialEq, Eq, Structural)]
pub struct Area {
    pub origin: Origin,
    pub size: Size,
}

/// The rectangle that a resize to `requested` leaves when the rectangle was
/// `prior`: the origin is taken as requested, and a width or height that is
/// not positive keeps the prior value.
pub open spec fn clamp_resize(prior: Area, requested: Area) -> Area {
    Area {
        origin: requested.origin,
        size: Size {
            width: if requested.size.width <= 0 {
                prior.size.width
            } else {
                requested.size.width
            },
            height: if requested.size.height <= 0 {
                prior.size.height
            } else {
                requested.size.height
            },
        },
    }
}

impl Area {
    /// Both sides are positive.
    pub open spec fn has_positive_size(self) -> bool {
        self.size.width > 0 && self.size.height > 0
    }

    pub fn new(origin: Origin, size: Size) -> (r: Area)
        ensures
            r.origin == origin,
            r.size == size,
    {
        Area { origin, size }
    }

    /// The rectangle left by resizing `self` to `requested`.
    pub fn clamped_resize(&self, requested: Area) -> (r: Area)
        ensures
            r == clamp_resize(*self, requested),
    {
        let width: i32 = if requested.size.width <= 0 {
            self.size.width
        } else {
            requested.size.width
        };
        let height: i32 = if requested.size.height <= 0 {
            self.size.height
        } else {
            requested.size.height
        };
        Area { origin: requested.origin, size: Size { width, height } }
    }
}

/// A resize never leaves a positive side non-positive.
pub proof fn lemma_clamp_keeps_positive(prior: Area, requested: Area)
    requires
        prior.has_positive_size(),
    ensures
        clamp_resize(prior, requested).has_positive_size(),
{
}

} // verus!
