use vstd::prelude::*;

verus! {

/// The movement keys held in one frame.
#[derive(Clone, Copy, Debug, PartialEq, Eq, Structural)]
pub struct MoveKeys {
    pub forward: bool,
    pub back: bool,
    pub left: bool,
    pub right: bool,
    pub up: bool,
    pub down: bool,
}

/// Signed step along the observer's forward, left and vertical axes, each -1, 0 or 1.
#[derive(Clone, Copy, Debug, PartialEq, Eq, Structural)]
pub struct MoveAxes {
    pub forward: i8,
    pub left: i8,
    pub up: i8,
}

/// +1 when only the positive key is held, -1 when only the negative one is,
/// 0 when both or neither are.
pub open spec fn axis(pos: bool, neg: bool) -> int {
    (if pos {
        1int
    } else {
        0int
    }) - (if neg {
        1int
    } else {
        0int
    })
}

fn axis_of(pos: bool, neg: bool) -> (r: i8)
    ensures
        r == axis(pos, neg),
{
    let p: i8 = if pos {
        1
    } else {
        0
    };
    let m: i8 = if neg {
        1
    } else {
        0
    };
    p - m
}

/// The direction the held keys ask for, before it is turned into world space:
/// forward minus back, left minus right, up minus down.
pub fn move_axes(keys: MoveKeys) -> (r: MoveAxes)
    ensures
        r.forward == axis(keys.forward, keys.back),
        r.left == axis(keys.left, keys.right),
        r.up == axis(keys.up, keys.down),
{
    MoveAxes {
        forward: axis_of(keys.forward, keys.back),
        left: axis_of(keys.left, keys.right),
        up: axis_of(keys.up, keys.down),
    }
}

impl MoveAxes {
    /// No movement this frame: the caller skips normalising a zero vector.
    pub fn is_still(&self) -> (r: bool)
        ensures
            r == (self.forward == 0 && self.left == 0 && self.up == 0),
    {
        self.forward == 0 && self.left == 0 && self.up == 0
    }
}

/// Whether the cursor is captured after a frame in which the left button was
/// (or was not) clicked and escape was (or was not) pressed: a click captures
/// it, escape releases it, and escape wins when both come in one frame.
pub fn next_cursor_captured(captured: bool, clicked: bool, escape: bool) -> (r: bool)
    ensures
        r == (!escape && (captured || clicked)),
{
    let mut c = captured;
    if clicked {
        c = true;
    }
    if escape {
        c = false;
    }
    c
}

/// Mouse look turns the observer only while the cursor is captured.
pub fn look_enabled(captured: bool) -> (r: bool)
    ensures
        r == captured,
{
    captured
}

} // verus!
