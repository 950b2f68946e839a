//! Pure geometry: the integer parts of the mouse edge-zone hit test and of the
//! overlay width, the monitor holding a window, and the layer-shell anchor and
//! monitor-local margins that place the overlay bar at a corner of a window.

use vstd::prelude::*;

use crate::hypr::MonitorInfo;
use crate::text::{parse_i32, parsed_i32, str_is};

verus! {

/// A rectangle in pixel coordinates.
#[derive(Debug, Clone, Copy, PartialEq, Eq, Structural)]
pub struct Rect {
    pub x: i32,
    pub y: i32,
    pub width: i32,
    pub height: i32,
}

impl Rect {
    pub fn new(x: i32, y: i32, width: i32, height: i32) -> (r: Self)
        ensures
            r.x == x,
            r.y == y,
            r.width == width,
            r.height == height,
    {
        Rect { x, y, width, height }
    }
}

/// The corner of the tracked window where the overlay bar is anchored
/// (the `from_overlay` config field).
#[derive(Debug, Clone, Copy, PartialEq, Eq, Structural)]
pub enum Anchor {
    BotLeft,
    BotRight,
    TopLeft,
    TopRight,
}

/// The anchor named by a `from_overlay` config value; unknown values mean `BotLeft`.
pub open spec fn anchor_of(s: Seq<char>) -> Anchor {
    if s == "bot_right"@ {
        Anchor::BotRight
    } else if s == "top_left"@ {
        Anchor::TopLeft
    } else if s == "top_right"@ {
        Anchor::TopRight
    } else {
        Anchor::BotLeft
    }
}

impl Anchor {
    /// Parse a `from_overlay` config value. Unknown values fall back to `BotLeft`.
    pub fn from_config(s: &str) -> (a: Anchor)
        ensures
            a == anchor_of(s@),
            s@ == "bot_left"@ ==> a == Anchor::BotLeft,
    {
        proof {
            reveal_strlit("bot_left");
            reveal_strlit("bot_right");
            reveal_strlit("top_left");
            reveal_strlit("top_right");
            assert("bot_left"@.len() != "bot_right"@.len());
            assert("bot_left"@[0] != "top_left"@[0]);
            assert("bot_left"@.len() != "top_right"@.len());
        }
        if str_is(s, "bot_left") {
            Anchor::BotLeft
        } else if str_is(s, "bot_right") {
            Anchor::BotRight
        } else if str_is(s, "top_left") {
            Anchor::TopLeft
        } else if str_is(s, "top_right") {
            Anchor::TopRight
        } else {
            Anchor::BotLeft
        }
    }
}

/// Default overlay bar height in pixels.
pub const OVERLAY_HEIGHT: i32 = 36;

/// Overlay width when a fixed pixel `overlay_size` cannot be parsed.
pub const DEFAULT_OVERLAY_WIDTH: i32 = 250;

/// Does `v` fit an `i32`?
pub open spec fn fits_i32(v: int) -> bool {
    i32::MIN <= v <= i32::MAX
}

/// Is a `from_area` value one of the vertical sides (`top`/`bottom`)?
pub open spec fn is_vertical_area(area: Seq<char>) -> bool {
    area == "top"@ || area == "bottom"@
}

fn is_vertical(area: &str) -> (r: bool)
    ensures
        r == is_vertical_area(area@),
{
    str_is(area, "top") || str_is(area, "bottom")
}

/// The window dimension the change zone runs along: the height for
/// `top`/`bottom`, otherwise (including unknown values) the width.
pub open spec fn zone_axis_of(win: Rect, area: Seq<char>) -> i32 {
    if is_vertical_area(area) {
        win.height
    } else {
        win.width
    }
}

/// The change zone runs along the window's height for the `top` and
/// `bottom` edges and along its width for `left`, `right` and any other value.
pub proof fn law_zone_axis_sides(win: Rect, area: Seq<char>)
    ensures
        zone_axis_of(win, "top"@) == win.height,
        zone_axis_of(win, "bottom"@) == win.height,
        zone_axis_of(win, "left"@) == win.width,
        zone_axis_of(win, "right"@) == win.width,
        area != "top"@ && area != "bottom"@ ==> zone_axis_of(win, area) == win.width,
{
    reveal_strlit("top");
    reveal_strlit("bottom");
    reveal_strlit("left");
    reveal_strlit("right");
    assert("left"@ != "top"@ && "left"@ != "bottom"@) by {
        assert("left"@[0] != "top"@[0]);
        assert("left"@.len() != "bottom"@.len());
    }
    assert("right"@ != "top"@ && "right"@ != "bottom"@) by {
        assert("right"@[0] != "top"@[0]);
        assert("right"@[0] != "bottom"@[0]);
    }
}

/// The window dimension the change zone of `from_area` runs along.
pub fn zone_axis(win: Rect, from_area: &str) -> (d: i32)
    ensures
        d == zone_axis_of(win, from_area@),
{
    if is_vertical(from_area) {
        win.height
    } else {
        win.width
    }
}

/// Size of the change zone along a dimension: `max(min_px, 0)` for a
/// non-positive dimension, otherwise the fractional size `by_fraction`
/// floored at `min_px`.
pub open spec fn change_zone_of(dimension: i32, by_fraction: i32, min_px: i32) -> i32 {
    if dimension <= 0 {
        if min_px >= 0 { min_px } else { 0 }
    } else if by_fraction >= min_px {
        by_fraction
    } else {
        min_px
    }
}

/// Size of the change zone, given the dimension it runs along and its
/// fractional size (`dimension * fraction`, truncated).
pub fn change_zone_size_from(dimension: i32, by_fraction: i32, min_px: i32) -> (z: i32)
    ensures
        z == change_zone_of(dimension, by_fraction, min_px),
{
    if dimension <= 0 {
        if min_px >= 0 { min_px } else { 0 }
    } else if by_fraction >= min_px {
        by_fraction
    } else {
        min_px
    }
}

/// Distance of the cursor from the window edge named by `area`
/// (unknown values mean the left edge), positive inside the window.
pub open spec fn edge_distance(win: Rect, cursor: (i32, i32), area: Seq<char>) -> int {
    if area == "right"@ {
        (win.x + win.width) - cursor.0
    } else if area == "top"@ {
        cursor.1 - win.y
    } else if area == "bottom"@ {
        (win.y + win.height) - cursor.1
    } else {
        cursor.0 - win.x
    }
}

/// The distance computation of [`edge_zone_hit`] stays within `i32`.
pub open spec fn edge_distance_fits(win: Rect, cursor: (i32, i32), area: Seq<char>) -> bool {
    if area == "right"@ {
        fits_i32(win.x + win.width) && fits_i32(edge_distance(win, cursor, area))
    } else if area == "bottom"@ {
        fits_i32(win.y + win.height) && fits_i32(edge_distance(win, cursor, area))
    } else {
        fits_i32(edge_distance(win, cursor, area))
    }
}

/// Is the cursor inside the edge zone of size `max_allowed`? A window with a
/// non-positive width or height is never a hit.
pub open spec fn edge_zone_hit_spec(win: Rect, cursor: (i32, i32), area: Seq<char>, max_allowed: i32) -> bool {
    if win.width <= 0 || win.height <= 0 {
        false
    } else {
        let d = edge_distance(win, cursor, area);
        0 <= d <= max_allowed
    }
}

/// Is the cursor within `max_allowed` pixels of the window edge `from_area`
/// (`left`/`right`/`top`/`bottom`; unknown means `left`)?
pub fn edge_zone_hit(win: Rect, cursor: (i32, i32), from_area: &str, max_allowed: i32) -> (r: bool)
    requires
        win.width > 0 && win.height > 0 ==> edge_distance_fits(win, cursor, from_area@),
    ensures
        r == edge_zone_hit_spec(win, cursor, from_area@, max_allowed),
{
    if win.width <= 0 || win.height <= 0 {
        return false;
    }
    let (cx, cy) = cursor;
    let dist = if str_is(from_area, "right") {
        (win.x + win.width) - cx
    } else if str_is(from_area, "top") {
        cy - win.y
    } else if str_is(from_area, "bottom") {
        (win.y + win.height) - cy
    } else {
        cx - win.x
    };
    dist >= 0 && dist <= max_allowed
}

/// The overlay bar width: for `change_area_x` the change zone along
/// `from_area` (`zone_x`) minus `2 * offset_x`, for `change_area_y` the
/// perpendicular zone (`zone_y`) minus `2 * offset_x`, otherwise the fixed
/// pixel value (250 when it does not parse); floored at 1.
pub open spec fn overlay_width_of(size: Seq<char>, zone_x: i32, zone_y: i32, offset_x: i32) -> int {
    let w: int = if size == "change_area_x"@ {
        zone_x - 2 * offset_x
    } else if size == "change_area_y"@ {
        zone_y - 2 * offset_x
    } else {
        match parsed_i32(size) {
            Some(v) => v as int,
            None => DEFAULT_OVERLAY_WIDTH as int,
        }
    };
    if w >= 1 { w } else { 1 }
}

/// The width computation for `size` stays within `i32` (only the
/// `change_area_*` variants compute anything).
pub open spec fn overlay_width_fits(size: Seq<char>, zone_x: i32, zone_y: i32, offset_x: i32) -> bool {
    &&& size == "change_area_x"@ ==> fits_i32(2 * offset_x) && fits_i32(zone_x - 2 * offset_x)
    &&& size == "change_area_y"@ ==> fits_i32(2 * offset_x) && fits_i32(zone_y - 2 * offset_x)
}

/// The overlay bar width from the `overlay_size` config value and the two
/// change-zone sizes.
pub fn overlay_width_px(overlay_size: &str, zone_x: i32, zone_y: i32, offset_x: i32) -> (w: i32)
    requires
        overlay_width_fits(overlay_size@, zone_x, zone_y, offset_x),
    ensures
        w == overlay_width_of(overlay_size@, zone_x, zone_y, offset_x),
{
    let width = if str_is(overlay_size, "change_area_x") {
        zone_x - 2 * offset_x
    } else if str_is(overlay_size, "change_area_y") {
        zone_y - 2 * offset_x
    } else {
        match parse_i32(overlay_size) {
            Some(v) => v,
            None => DEFAULT_OVERLAY_WIDTH,
        }
    };
    if width >= 1 { width } else { 1 }
}

/// Does the monitor contain the point `(x, y)` (top-left edges inclusive)?
pub open spec fn monitor_contains(m: MonitorInfo, x: i32, y: i32) -> bool {
    m.x <= x < m.x + m.width && m.y <= y < m.y + m.height
}

/// The edges of every monitor stay within `i32`.
pub open spec fn monitors_fit(monitors: Seq<MonitorInfo>) -> bool {
    forall|i: int|
        0 <= i < monitors.len() ==> fits_i32(#[trigger] monitors[i].x + monitors[i].width)
            && fits_i32(monitors[i].y + monitors[i].height)
}

/// Index of the first monitor containing the window's top-left corner, or
/// else of the first monitor; `None` when there are no monitors.
pub open spec fn monitor_for_spec(win: Rect, monitors: Seq<MonitorInfo>) -> Option<int> {
    if exists|i: int| 0 <= i < monitors.len() && monitor_contains(#[trigger] monitors[i], win.x, win.y) {
        Some(
            choose|i: int|
                0 <= i < monitors.len() && monitor_contains(#[trigger] monitors[i], win.x, win.y)
                    && forall|j: int| 0 <= j < i ==> !monitor_contains(#[trigger] monitors[j], win.x, win.y),
        )
    } else if monitors.len() > 0 {
        Some(0)
    } else {
        None
    }
}

/// The monitor the overlay should go on: the first one containing the
/// window's top-left corner, falling back to the first monitor.
pub fn monitor_for_window(win: Rect, monitors: &[MonitorInfo]) -> (r: Option<usize>)
    requires
        monitors_fit(monitors@),
    ensures
        match r {
            Some(i) => i < monitors@.len() && (
                (monitor_contains(monitors@[i as int], win.x, win.y)
                    && forall|j: int| 0 <= j < i ==> !monitor_contains(#[trigger] monitors@[j], win.x, win.y))
                || (i == 0 && forall|j: int| 0 <= j < monitors@.len() ==> !monitor_contains(#[trigger] monitors@[j], win.x, win.y))),
            None => monitors@.len() == 0,
        },
        r matches Some(i) ==> monitor_for_spec(win, monitors@) == Some(i as int),
        r is None ==> monitor_for_spec(win, monitors@) is None,
{
    let mut i: usize = 0;
    while i < monitors.len()
        invariant
            i <= monitors.len(),
            monitors_fit(monitors@),
            forall|j: int| 0 <= j < i ==> !monitor_contains(#[trigger] monitors@[j], win.x, win.y),
        decreases monitors.len() - i,
    {
        let m = &monitors[i];
        proof {
            assert(fits_i32(monitors@[i as int].x + monitors@[i as int].width));
        }
        if win.x >= m.x && win.x < m.x + m.width && win.y >= m.y && win.y < m.y + m.height {
            proof {
                let p = |k: int|
                    0 <= k < monitors@.len() && monitor_contains(monitors@[k], win.x, win.y)
                        && forall|j: int| 0 <= j < k ==> !monitor_contains(#[trigger] monitors@[j], win.x, win.y);
                assert(p(i as int));
                let c = choose|k: int|
                    0 <= k < monitors@.len() && monitor_contains(#[trigger] monitors@[k], win.x, win.y)
                        && forall|j: int| 0 <= j < k ==> !monitor_contains(#[trigger] monitors@[j], win.x, win.y);
                assert(p(c));
                if c < i {
                    assert(!monitor_contains(monitors@[c], win.x, win.y));
                }
                if c > i {
                    assert(!monitor_contains(monitors@[i as int], win.x, win.y));
                }
                assert(monitor_contains(monitors@[i as int], win.x, win.y));
            }
            return Some(i);
        }
        i = i + 1;
    }
    if monitors.len() > 0 {
        Some(0)
    } else {
        None
    }
}

/// Overlay top-left in monitor-local coordinates for the given anchor.
pub open spec fn overlay_origin(
    win: Rect,
    monitor: Rect,
    anchor: Anchor,
    offset_x: i32,
    offset_y: i32,
    overlay_width: i32,
    overlay_height: i32,
) -> (int, int) {
    let lx = win.x - monitor.x;
    let ty = win.y - monitor.y;
    let left_x = lx + offset_x;
    let right_x = lx + win.width - overlay_width - offset_x;
    let top_y = ty + offset_y;
    let bottom_y = ty + win.height - overlay_height - offset_y;
    match anchor {
        Anchor::BotLeft => (left_x, bottom_y),
        Anchor::BotRight => (right_x, bottom_y),
        Anchor::TopLeft => (left_x, top_y),
        Anchor::TopRight => (right_x, top_y),
    }
}

/// Margins (before clamping) relative to the anchored monitor edges.
pub open spec fn raw_margins(
    win: Rect,
    monitor: Rect,
    anchor: Anchor,
    offset_x: i32,
    offset_y: i32,
    overlay_width: i32,
    overlay_height: i32,
) -> (int, int) {
    let (left, top) = overlay_origin(win, monitor, anchor, offset_x, offset_y, overlay_width, overlay_height);
    let mx = match anchor {
        Anchor::BotLeft | Anchor::TopLeft => left,
        Anchor::BotRight | Anchor::TopRight => monitor.width - (left + overlay_width),
    };
    let my = match anchor {
        Anchor::TopLeft | Anchor::TopRight => top,
        Anchor::BotLeft | Anchor::BotRight => monitor.height - (top + overlay_height),
    };
    (mx, my)
}

/// `v` clamped to `[0, max(hi, 0)]`.
pub open spec fn clamp_margin(v: int, hi: i32) -> int {
    let top: int = if hi >= 0 { hi as int } else { 0 };
    if v < 0 {
        0
    } else if v > top {
        top
    } else {
        v
    }
}

/// Every intermediate value of the margin computation for `anchor` fits an `i32`.
pub open spec fn margins_fit(
    win: Rect,
    monitor: Rect,
    anchor: Anchor,
    offset_x: i32,
    offset_y: i32,
    overlay_width: i32,
    overlay_height: i32,
) -> bool {
    let lx = win.x - monitor.x;
    let ty = win.y - monitor.y;
    let (left, top) = overlay_origin(win, monitor, anchor, offset_x, offset_y, overlay_width, overlay_height);
    &&& fits_i32(lx)
    &&& fits_i32(ty)
    &&& match anchor {
        Anchor::BotLeft | Anchor::TopLeft => fits_i32(lx + offset_x),
        Anchor::BotRight | Anchor::TopRight => {
            &&& fits_i32(lx + win.width)
            &&& fits_i32(lx + win.width - overlay_width)
            &&& fits_i32(left)
            &&& fits_i32(left + overlay_width)
            &&& fits_i32(monitor.width - (left + overlay_width))
        },
    }
    &&& match anchor {
        Anchor::TopLeft | Anchor::TopRight => fits_i32(ty + offset_y),
        Anchor::BotLeft | Anchor::BotRight => {
            &&& fits_i32(ty + win.height)
            &&& fits_i32(ty + win.height - overlay_height)
            &&& fits_i32(top)
            &&& fits_i32(top + overlay_height)
            &&& fits_i32(monitor.height - (top + overlay_height))
        },
    }
}

/// The layer-shell anchor and monitor-local margins that place the overlay
/// bar at the configured corner of the tracked window.
pub open spec fn anchor_margins_spec(
    win: Rect,
    monitor: Rect,
    from_overlay: Seq<char>,
    offset_x: i32,
    offset_y: i32,
    overlay_width: i32,
    overlay_height: i32,
) -> (Anchor, int, int) {
    let anchor = anchor_of(from_overlay);
    let (mx, my) = raw_margins(win, monitor, anchor, offset_x, offset_y, overlay_width, overlay_height);
    (anchor, clamp_margin(mx, monitor.width), clamp_margin(my, monitor.height))
}

/// Compute the layer-shell anchor and monitor-local margins that place the
/// overlay bar at the configured corner of the tracked window. `win` and
/// `monitor` are in global coordinates; margins are clamped to
/// `[0, monitor size]`.
pub fn compute_anchor_margins(
    win: Rect,
    monitor: Rect,
    from_overlay: &str,
    offset_x: i32,
    offset_y: i32,
    overlay_width: i32,
    overlay_height: i32,
) -> (r: (Anchor, i32, i32))
    requires
        margins_fit(win, monitor, anchor_of(from_overlay@), offset_x, offset_y, overlay_width, overlay_height),
    ensures
        (r.0, r.1 as int, r.2 as int) == anchor_margins_spec(
            win,
            monitor,
            from_overlay@,
            offset_x,
            offset_y,
            overlay_width,
            overlay_height,
        ),
        0 <= r.1 && (r.1 <= monitor.width || monitor.width < 0),
        0 <= r.2 && (r.2 <= monitor.height || monitor.height < 0),
{
    let anchor = Anchor::from_config(from_overlay);
    let lx = win.x - monitor.x;
    let ty = win.y - monitor.y;
    let (overlay_left, overlay_top): (i32, i32) = match anchor {
        Anchor::BotLeft => (lx + offset_x, ty + win.height - overlay_height - offset_y),
        Anchor::BotRight => (
            lx + win.width - overlay_width - offset_x,
            ty + win.height - overlay_height - offset_y,
        ),
        Anchor::TopLeft => (lx + offset_x, ty + offset_y),
        Anchor::TopRight => (lx + win.width - overlay_width - offset_x, ty + offset_y),
    };
    let margin_x: i32 = match anchor {
        Anchor::BotLeft | Anchor::TopLeft => overlay_left,
        Anchor::BotRight | Anchor::TopRight => monitor.width - (overlay_left + overlay_width),
    };
    let margin_y: i32 = match anchor {
        Anchor::TopLeft | Anchor::TopRight => overlay_top,
        Anchor::BotLeft | Anchor::BotRight => monitor.height - (overlay_top + overlay_height),
    };
    let max_x: i32 = if monitor.width >= 0 { monitor.width } else { 0 };
    let max_y: i32 = if monitor.height >= 0 { monitor.height } else { 0 };
    let mx = if margin_x < 0 { 0 } else if margin_x > max_x { max_x } else { margin_x };
    let my = if margin_y < 0 { 0 } else if margin_y > max_y { max_y } else { margin_y };
    (anchor, mx, my)
}

/// The rectangle of a monitor.
pub open spec fn monitor_rect(m: MonitorInfo) -> Rect {
    Rect { x: m.x, y: m.y, width: m.width, height: m.height }
}

fn in_i32(v: i64) -> (b: bool)
    ensures
        b == fits_i32(v as int),
{
    v >= -2147483648i64 && v <= 2147483647i64
}

/// Does the margin computation of [`compute_anchor_margins`] stay within `i32`?
pub fn margins_fit_check(
    win: Rect,
    monitor: Rect,
    anchor: Anchor,
    offset_x: i32,
    offset_y: i32,
    overlay_width: i32,
    overlay_height: i32,
) -> (b: bool)
    ensures
        b == margins_fit(win, monitor, anchor, offset_x, offset_y, overlay_width, overlay_height),
{
    let lx: i64 = win.x as i64 - monitor.x as i64;
    let ty: i64 = win.y as i64 - monitor.y as i64;
    let ow: i64 = overlay_width as i64;
    let oh: i64 = overlay_height as i64;
    let right_x: i64 = lx + win.width as i64 - ow - offset_x as i64;
    let bottom_y: i64 = ty + win.height as i64 - oh - offset_y as i64;
    let xs = match anchor {
        Anchor::BotLeft | Anchor::TopLeft => in_i32(lx + offset_x as i64),
        Anchor::BotRight | Anchor::TopRight => in_i32(lx + win.width as i64) && in_i32(lx + win.width as i64 - ow)
            && in_i32(right_x) && in_i32(right_x + ow) && in_i32(monitor.width as i64 - (right_x + ow)),
    };
    let ys = match anchor {
        Anchor::TopLeft | Anchor::TopRight => in_i32(ty + offset_y as i64),
        Anchor::BotLeft | Anchor::BotRight => in_i32(ty + win.height as i64) && in_i32(ty + win.height as i64 - oh)
            && in_i32(bottom_y) && in_i32(bottom_y + oh) && in_i32(monitor.height as i64 - (bottom_y + oh)),
    };
    in_i32(lx) && in_i32(ty) && xs && ys
}

/// Do the edges of every monitor stay within `i32`?
pub fn monitors_fit_check(monitors: &[MonitorInfo]) -> (b: bool)
    ensures
        b == monitors_fit(monitors@),
{
    let mut i: usize = 0;
    while i < monitors.len()
        invariant
            i <= monitors@.len(),
            forall|k: int|
                0 <= k < i ==> fits_i32((#[trigger] monitors@[k]).x + monitors@[k].width)
                    && fits_i32(monitors@[k].y + monitors@[k].height),
        decreases monitors.len() - i,
    {
        let m = &monitors[i];
        if !in_i32(m.x as i64 + m.width as i64) || !in_i32(m.y as i64 + m.height as i64) {
            return false;
        }
        i = i + 1;
    }
    true
}

/// Where the overlay bar goes for a tracked window: the monitor it is on
/// (see [`monitor_for_window`]) with the anchor and margins on that monitor,
/// or `None` when there is no monitor or the pixel arithmetic would leave `i32`.
pub open spec fn placement_of(
    win: Rect,
    monitors: Seq<MonitorInfo>,
    from_overlay: Seq<char>,
    offset_x: i32,
    offset_y: i32,
    overlay_width: i32,
    overlay_height: i32,
) -> Option<(int, (Anchor, int, int))> {
    if !monitors_fit(monitors) {
        None
    } else {
        match monitor_for_spec(win, monitors) {
            None => None,
            Some(i) => {
                let m = monitor_rect(monitors[i]);
                if margins_fit(win, m, anchor_of(from_overlay), offset_x, offset_y, overlay_width, overlay_height) {
                    Some((i, anchor_margins_spec(win, m, from_overlay, offset_x, offset_y, overlay_width, overlay_height)))
                } else {
                    None
                }
            },
        }
    }
}

/// Place the overlay bar for a tracked window: the index of its monitor and
/// the anchor and monitor-local margins there.
pub fn place_overlay(
    win: Rect,
    monitors: &[MonitorInfo],
    from_overlay: &str,
    offset_x: i32,
    offset_y: i32,
    overlay_width: i32,
    overlay_height: i32,
) -> (r: Option<(usize, Anchor, i32, i32)>)
    ensures
        match placement_of(win, monitors@, from_overlay@, offset_x, offset_y, overlay_width, overlay_height) {
            None => r is None,
            Some((i, (a, mx, my))) => r == Some((i as usize, a, mx as i32, my as i32)),
        },
{
    if !monitors_fit_check(monitors) {
        return None;
    }
    match monitor_for_window(win, monitors) {
        None => None,
        Some(i) => {
            let m = &monitors[i];
            let mrect = Rect::new(m.x, m.y, m.width, m.height);
            let anchor = Anchor::from_config(from_overlay);
            if !margins_fit_check(win, mrect, anchor, offset_x, offset_y, overlay_width, overlay_height) {
                return None;
            }
            let (a, mx, my) = compute_anchor_margins(
                win,
                mrect,
                from_overlay,
                offset_x,
                offset_y,
                overlay_width,
                overlay_height,
            );
            Some((i, a, mx, my))
        },
    }
}

/// The side whose axis runs across `area`'s: `left` for `top`/`bottom`,
/// otherwise `top` (the zone `change_area_y` widths are measured along).
pub open spec fn perpendicular_of(area: Seq<char>) -> Seq<char> {
    if is_vertical_area(area) {
        "left"@
    } else {
        "top"@
    }
}

/// The side perpendicular to `area` (see [`perpendicular_of`]).
pub fn perpendicular_area(area: &str) -> (r: &'static str)
    ensures
        r@ == perpendicular_of(area@),
{
    if is_vertical(area) {
        "left"
    } else {
        "top"
    }
}

/// Does the distance computation of [`edge_zone_hit`] stay within `i32`?
pub fn edge_distance_fits_check(win: Rect, cursor: (i32, i32), from_area: &str) -> (b: bool)
    ensures
        b == edge_distance_fits(win, cursor, from_area@),
{
    let right: i64 = win.x as i64 + win.width as i64;
    let bottom: i64 = win.y as i64 + win.height as i64;
    proof {
        reveal_strlit("top");
        reveal_strlit("bottom");
        assert("top"@.len() != "bottom"@.len());
    }
    if str_is(from_area, "right") {
        in_i32(right) && in_i32(right - cursor.0 as i64)
    } else if str_is(from_area, "top") {
        in_i32(cursor.1 as i64 - win.y as i64)
    } else if str_is(from_area, "bottom") {
        in_i32(bottom) && in_i32(bottom - cursor.1 as i64)
    } else {
        in_i32(cursor.0 as i64 - win.x as i64)
    }
}

/// Does the width computation of [`overlay_width_px`] stay within `i32`?
pub fn overlay_width_fits_check(overlay_size: &str, zone_x: i32, zone_y: i32, offset_x: i32) -> (b: bool)
    ensures
        b == overlay_width_fits(overlay_size@, zone_x, zone_y, offset_x),
{
    let twice: i64 = 2 * offset_x as i64;
    let x_ok = in_i32(twice) && in_i32(zone_x as i64 - twice);
    let y_ok = in_i32(twice) && in_i32(zone_y as i64 - twice);
    proof {
        reveal_strlit("change_area_x");
        reveal_strlit("change_area_y");
        assert("change_area_x"@[12] != "change_area_y"@[12]);
    }
    if str_is(overlay_size, "change_area_x") {
        x_ok
    } else if str_is(overlay_size, "change_area_y") {
        y_ok
    } else {
        true
    }
}

} // verus!
