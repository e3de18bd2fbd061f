//! The floating orb always lives in one of the four corners of its monitor,
//! a small margin from the edges; after the user drags it, it snaps to the
//! nearest corner.

use vstd::prelude::*;
use crate::text::str_eq;

verus! {

/// A monitor's top-left corner and size, in physical pixels.
#[derive(Clone, Copy, Debug)]
pub struct MonitorRect {
    pub x: i32,
    pub y: i32,
    pub width: u32,
    pub height: u32,
}

/// The orb's size when its window cannot say.
pub open spec fn orb_size_or_default(size: Option<(u32, u32)>) -> (u32, u32) {
    match size {
        Some(s) => s,
        None => (120, 120),
    }
}

/// The distance of the docked orb from the monitor's edges.
pub open spec fn margin() -> int {
    10
}

/// The four docking spots on a monitor: (left, right, top, bottom).
pub open spec fn docking_lines(m: MonitorRect, size: (u32, u32)) -> (int, int, int, int) {
    (
        m.x + margin(),
        m.x + m.width - size.0 - margin(),
        m.y + margin(),
        m.y + m.height - size.1 - margin(),
    )
}

/// The docking spots can be computed in `i32`, as the window system does.
pub open spec fn dockable(m: MonitorRect, size: Option<(u32, u32)>) -> bool {
    let s = orb_size_or_default(size);
    let (l, r, t, b) = docking_lines(m, s);
    &&& m.width <= i32::MAX && m.height <= i32::MAX
    &&& s.0 <= i32::MAX && s.1 <= i32::MAX
    &&& i32::MIN <= m.x + m.width <= i32::MAX
    &&& i32::MIN <= m.y + m.height <= i32::MAX
    &&& i32::MIN <= m.x + m.width - s.0 <= i32::MAX
    &&& i32::MIN <= m.y + m.height - s.1 <= i32::MAX
    &&& i32::MIN <= l <= i32::MAX && i32::MIN <= r <= i32::MAX
    &&& i32::MIN <= t <= i32::MAX && i32::MIN <= b <= i32::MAX
}

/// The corner a name stands for: (top, left); any name other than
/// "top-left", "top-right" and "bottom-left" means bottom-right.
pub open spec fn corner_sides(corner: Seq<char>) -> (bool, bool) {
    if corner == "top-left"@ {
        (true, true)
    } else if corner == "top-right"@ {
        (true, false)
    } else if corner == "bottom-left"@ {
        (false, true)
    } else {
        (false, false)
    }
}

/// The orb's top-left position at a corner of the monitor.
pub open spec fn corner_spot(m: MonitorRect, size: Option<(u32, u32)>, corner: Seq<char>) -> (int, int) {
    let (l, r, t, b) = docking_lines(m, orb_size_or_default(size));
    let (top, left) = corner_sides(corner);
    (if left { l } else { r }, if top { t } else { b })
}

/// The top-left (x, y) for the orb at a named corner of its monitor, in
/// physical pixels, with a 10-pixel margin from the edges. Bottom-right is the
/// default for any other name.
pub fn orb_corner_xy(monitor: MonitorRect, orb_size: Option<(u32, u32)>, corner: &str) -> (r: (i32, i32))
    requires
        dockable(monitor, orb_size),
    ensures
        (r.0 as int, r.1 as int) == corner_spot(monitor, orb_size, corner@),
{
    let (ow, oh) = match orb_size {
        Some(s) => s,
        None => (120, 120),
    };
    let margin: i32 = 10;
    let left = monitor.x + margin;
    let right = monitor.x + monitor.width as i32 - ow as i32 - margin;
    let top = monitor.y + margin;
    let bottom = monitor.y + monitor.height as i32 - oh as i32 - margin;
    if str_eq(corner, "top-left") {
        (left, top)
    } else if str_eq(corner, "top-right") {
        (right, top)
    } else if str_eq(corner, "bottom-left") {
        (left, bottom)
    } else {
        (right, bottom)
    }
}

/// The name of the corner on the given sides.
pub open spec fn corner_name(top: bool, left: bool) -> Seq<char> {
    if top {
        if left { "top-left"@ } else { "top-right"@ }
    } else {
        if left { "bottom-left"@ } else { "bottom-right"@ }
    }
}

/// The centre of the orb and the monitor's midlines can be computed in `i32`.
pub open spec fn measurable_position(pos: (i32, i32), m: MonitorRect, size: Option<(u32, u32)>) -> bool {
    let s = orb_size_or_default(size);
    &&& m.width <= i32::MAX && m.height <= i32::MAX
    &&& s.0 <= i32::MAX && s.1 <= i32::MAX
    &&& i32::MIN <= pos.0 + s.0 / 2 <= i32::MAX
    &&& i32::MIN <= pos.1 + s.1 / 2 <= i32::MAX
    &&& i32::MIN <= m.x + m.width / 2 <= i32::MAX
    &&& i32::MIN <= m.y + m.height / 2 <= i32::MAX
}

/// The corner nearest to the orb at `pos`: the quadrant of the monitor that
/// holds the orb's centre.
pub open spec fn nearest_corner_of(pos: (i32, i32), m: MonitorRect, size: Option<(u32, u32)>) -> Seq<char> {
    let s = orb_size_or_default(size);
    let cx = pos.0 + s.0 / 2;
    let cy = pos.1 + s.1 / 2;
    corner_name(cy < m.y + m.height / 2, cx < m.x + m.width / 2)
}

/// Which corner the orb's current position is closest to, on its monitor;
/// "bottom-right" when the position or the monitor is unknown.
pub fn nearest_orb_corner(
    position: Option<(i32, i32)>,
    monitor: Option<MonitorRect>,
    orb_size: Option<(u32, u32)>,
) -> (r: String)
    requires
        position matches Some(p) ==> (monitor matches Some(m) ==> measurable_position(p, m, orb_size)),
    ensures
        r@ == match (position, monitor) {
            (Some(p), Some(m)) => nearest_corner_of(p, m, orb_size),
            _ => "bottom-right"@,
        },
{
    match (position, monitor) {
        (Some(pos), Some(m)) => {
            let (ow, oh) = match orb_size {
                Some(s) => s,
                None => (120, 120),
            };
            let cx = pos.0 + ow as i32 / 2;
            let cy = pos.1 + oh as i32 / 2;
            let mid_x = m.x + m.width as i32 / 2;
            let mid_y = m.y + m.height as i32 / 2;
            let name = if cy < mid_y {
                if cx < mid_x { "top-left" } else { "top-right" }
            } else {
                if cx < mid_x { "bottom-left" } else { "bottom-right" }
            };
            name.to_owned()
        },
        _ => "bottom-right".to_owned(),
    }
}

/// Snapping is stable: an orb docked at a corner snaps back to that same
/// corner, on any monitor at least twice the orb's size plus 40 pixels in
/// each direction. (On a smaller monitor the corners' spots can cross the
/// midlines.)
pub proof fn lemma_docked_orb_snaps_back(m: MonitorRect, size: Option<(u32, u32)>, corner: Seq<char>)
    requires
        dockable(m, size),
        m.width >= 2 * orb_size_or_default(size).0 + 40,
        m.height >= 2 * orb_size_or_default(size).1 + 40,
    ensures
        ({
            let spot = corner_spot(m, size, corner);
            let (top, left) = corner_sides(corner);
            nearest_corner_of((spot.0 as i32, spot.1 as i32), m, size) == corner_name(top, left)
        }),
{
}

/// A docked corner's name is one of the four corner names, and naming it
/// again gives the same corner: "top-left", "top-right" and "bottom-left" stand
/// for themselves, every other name for "bottom-right".
pub proof fn lemma_corner_names(corner: Seq<char>)
    ensures
        ({
            let (top, left) = corner_sides(corner);
            corner_sides(corner_name(top, left)) == (top, left)
        }),
{
    reveal_strlit("top-left");
    reveal_strlit("top-right");
    reveal_strlit("bottom-left");
    reveal_strlit("bottom-right");
    assert("top-left"@[4] != "top-right"@[4]);
    assert("top-left"@[0] != "bottom-left"@[0]);
    assert("top-left"@[0] != "bottom-right"@[0]);
    assert("top-right"@[0] != "bottom-left"@[0]);
    assert("top-right"@[0] != "bottom-right"@[0]);
    assert("bottom-left"@[7] != "bottom-right"@[7]);
}

} // verus!
