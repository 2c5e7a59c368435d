use vstd::prelude::*;
use crate::keys::{KeyEvent, VK_UP, VK_DOWN, VK_LEFT, VK_RIGHT};
use crate::number::{decimal_i32, parse_i32};

verus! {

/// Pad status: no direction held yet.
pub const PAD_IDLE: i32 = 0;

/// Pad status: up is held.
pub const PAD_UP: i32 = 1;

/// Pad status: down is held.
pub const PAD_DOWN: i32 = 2;

/// Pad status: left is held.
pub const PAD_LEFT: i32 = 3;

/// Pad status: right is held.
pub const PAD_RIGHT: i32 = 4;

/// Integer division that rounds toward zero, as Rust's `/` on integers does.
pub open spec fn div_toward_zero(a: int, b: int) -> int {
    if a >= 0 {
        a / b
    } else {
        -((-a) / b)
    }
}

/// Where the game pad and its direction cross sit on the page, and how wide
/// the cross is. The cross is a three-by-three grid of square buttons.
#[derive(Clone, Copy, Debug, PartialEq, Eq, Structural)]
pub struct PadLayout {
    pub pad_left: i32,
    pub pad_top: i32,
    pub direction_left: i32,
    pub direction_top: i32,
    pub direction_width: i32,
}

/// The point lies in the upper button of the cross (button width `w`).
pub open spec fn up_hit(x: int, y: int, w: int) -> bool {
    w <= x && x <= 2 * w && y <= w
}

/// The point lies in the lower button of the cross.
pub open spec fn down_hit(x: int, y: int, w: int) -> bool {
    w <= x && x < 2 * w && 2 * w <= y && y <= 3 * w
}

/// The point lies in the left button of the cross.
pub open spec fn left_hit(x: int, y: int, w: int) -> bool {
    x <= w && w <= y && y <= 2 * w
}

/// The point lies in the right button of the cross.
pub open spec fn right_hit(x: int, y: int, w: int) -> bool {
    2 * w <= x && w <= y && y <= 2 * w
}

/// The up button fires: it is hit and up is not the direction already held.
pub open spec fn up_fires(x: int, y: int, w: int, status: int) -> bool {
    up_hit(x, y, w) && status != PAD_UP
}

/// The down button fires.
pub open spec fn down_fires(x: int, y: int, w: int, status: int) -> bool {
    down_hit(x, y, w) && status != PAD_DOWN
}

/// The left button fires.
pub open spec fn left_fires(x: int, y: int, w: int, status: int) -> bool {
    left_hit(x, y, w) && status != PAD_LEFT
}

/// The right button fires.
pub open spec fn right_fires(x: int, y: int, w: int, status: int) -> bool {
    right_hit(x, y, w) && status != PAD_RIGHT
}

/// The one key-down event of a button that fires, or nothing.
pub open spec fn fired(fires: bool, code: i32) -> Seq<(KeyEvent, i32)> {
    if fires {
        seq![(KeyEvent::KeyDown, code)]
    } else {
        Seq::empty()
    }
}

/// The key-down events that a touch of the cross at `(x, y)` raises, in the
/// order up, down, left, right; every firing button raises one.
pub open spec fn press_events(x: int, y: int, w: int, status: int) -> Seq<(KeyEvent, i32)> {
    fired(up_fires(x, y, w, status), VK_UP) + fired(down_fires(x, y, w, status), VK_DOWN) + fired(
        left_fires(x, y, w, status),
        VK_LEFT,
    ) + fired(right_fires(x, y, w, status), VK_RIGHT)
}

/// The pad status after the touch: the last button that fired, or the old
/// status where none fired.
pub open spec fn press_status(x: int, y: int, w: int, status: i32) -> i32 {
    if right_fires(x, y, w, status as int) {
        PAD_RIGHT
    } else if left_fires(x, y, w, status as int) {
        PAD_LEFT
    } else if down_fires(x, y, w, status as int) {
        PAD_DOWN
    } else if up_fires(x, y, w, status as int) {
        PAD_UP
    } else {
        status
    }
}

/// What a touch of the cross does: the status it leaves and the events it raises.
pub struct PadPress {
    pub status: i32,
    pub events: Vec<(KeyEvent, i32)>,
}

/// Decides a touch of the direction cross at `(x, y)`, relative to the
/// cross's top left corner, with buttons `w` wide and `status` the direction
/// held so far.
pub fn press_direction(x: i32, y: i32, w: i32, status: i32) -> (r: PadPress)
    ensures
        r.events@ == press_events(x as int, y as int, w as int, status as int),
        r.status == press_status(x as int, y as int, w as int, status),
{
    let x = x as i64;
    let y = y as i64;
    let w = w as i64;
    let mut events: Vec<(KeyEvent, i32)> = Vec::new();
    let mut new_status = status;
    if x >= w && x <= w * 2 && y <= w && status != PAD_UP {
        new_status = PAD_UP;
        events.push((KeyEvent::KeyDown, VK_UP));
    }
    let ghost after_up = events@;
    if x >= w && x < w * 2 && y >= w * 2 && y <= w * 3 && status != PAD_DOWN {
        new_status = PAD_DOWN;
        events.push((KeyEvent::KeyDown, VK_DOWN));
    }
    let ghost after_down = events@;
    if x <= w && y >= w && y <= w * 2 && status != PAD_LEFT {
        new_status = PAD_LEFT;
        events.push((KeyEvent::KeyDown, VK_LEFT));
    }
    let ghost after_left = events@;
    if x >= w * 2 && y >= w && y <= w * 2 && status != PAD_RIGHT {
        new_status = PAD_RIGHT;
        events.push((KeyEvent::KeyDown, VK_RIGHT));
    }
    proof {
        let (xi, yi, wi, si) = (x as int, y as int, w as int, status as int);
        assert(after_up =~= fired(up_fires(xi, yi, wi, si), VK_UP));
        assert(after_down =~= after_up + fired(down_fires(xi, yi, wi, si), VK_DOWN));
        assert(after_left =~= after_down + fired(left_fires(xi, yi, wi, si), VK_LEFT));
        assert(events@ =~= after_left + fired(right_fires(xi, yi, wi, si), VK_RIGHT));
    }
    PadPress { status: new_status, events }
}

impl PadLayout {
    /// Reads the layout from the page's attribute strings: the pad's and the
    /// cross's left and top offsets are decimal integers; `direction_width`
    /// is the cross's rendered width. `None` exactly when one of the four
    /// strings is not a decimal `i32`.
    pub fn from_attributes(
        pad_left: &str,
        pad_top: &str,
        direction_left: &str,
        direction_top: &str,
        direction_width: i32,
    ) -> (r: Option<PadLayout>)
        ensures
            r is Some <==> (decimal_i32(pad_left@) is Some && decimal_i32(pad_top@) is Some
                && decimal_i32(direction_left@) is Some && decimal_i32(direction_top@) is Some),
            r matches Some(l) ==> {
                &&& Some(l.pad_left) == decimal_i32(pad_left@)
                &&& Some(l.pad_top) == decimal_i32(pad_top@)
                &&& Some(l.direction_left) == decimal_i32(direction_left@)
                &&& Some(l.direction_top) == decimal_i32(direction_top@)
                &&& l.direction_width == direction_width
            },
    {
        let pl = parse_i32(pad_left);
        let pt = parse_i32(pad_top);
        let dl = parse_i32(direction_left);
        let dt = parse_i32(direction_top);
        match (pl, pt, dl, dt) {
            (Some(pad_left), Some(pad_top), Some(direction_left), Some(direction_top)) => Some(
                PadLayout { pad_left, pad_top, direction_left, direction_top, direction_width },
            ),
            _ => None,
        }
    }

    /// The width of one button of the cross: a third of the cross's width,
    /// rounded toward zero.
    pub fn button_width(&self) -> (r: i32)
        ensures
            r == div_toward_zero(self.direction_width as int, 3),
    {
        self.direction_width / 3
    }

    /// The client point's horizontal position relative to the cross.
    pub open spec fn local_x(self, client_x: i32) -> int {
        client_x - self.pad_left - self.direction_left
    }

    /// The client point's vertical position relative to the cross.
    pub open spec fn local_y(self, client_y: i32) -> int {
        client_y - self.pad_top - self.direction_top
    }

    /// Each subtraction that turns the client point into a point relative to
    /// the cross stays within `i32`.
    pub open spec fn point_in_range(self, client_x: i32, client_y: i32) -> bool {
        &&& i32::MIN <= client_x - self.pad_left <= i32::MAX
        &&& i32::MIN <= self.local_x(client_x) <= i32::MAX
        &&& i32::MIN <= client_y - self.pad_top <= i32::MAX
        &&& i32::MIN <= self.local_y(client_y) <= i32::MAX
    }

    /// Tests `point_in_range`.
    pub fn point_fits(&self, client_x: i32, client_y: i32) -> (r: bool)
        ensures
            r == self.point_in_range(client_x, client_y),
    {
        let dx = client_x as i64 - self.pad_left as i64;
        let dy = client_y as i64 - self.pad_top as i64;
        let lx = dx - self.direction_left as i64;
        let ly = dy - self.direction_top as i64;
        i32::MIN as i64 <= dx && dx <= i32::MAX as i64 && i32::MIN as i64 <= lx && lx
            <= i32::MAX as i64 && i32::MIN as i64 <= dy && dy <= i32::MAX as i64 && i32::MIN as i64
            <= ly && ly <= i32::MAX as i64
    }
}

} // verus!
