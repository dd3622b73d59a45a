//! Where the main window of the desktop application reopens: the saved size and position,
//! kept within the monitor it opens on, or defaults when nothing usable was saved.
use vstd::prelude::*;

verus! {

pub const DEFAULT_WINDOW_WIDTH: u32 = 1480;

pub const DEFAULT_WINDOW_HEIGHT: u32 = 920;

pub const MIN_WINDOW_WIDTH: u32 = 900;

pub const MIN_WINDOW_HEIGHT: u32 = 620;

/// The window geometry saved in the settings, in physical pixels.
pub struct SavedWindow {
    pub x: Option<i32>,
    pub y: Option<i32>,
    pub width: Option<u32>,
    pub height: Option<u32>,
    pub maximized: Option<bool>,
}

/// The area of a monitor, in physical pixels, with the default window size it suggests
/// (90% of its width and 88% of its height, rounded).
pub struct MonitorArea {
    pub x: i32,
    pub y: i32,
    pub width: u32,
    pub height: u32,
    pub default_width: u32,
    pub default_height: u32,
}

/// The larger of two sizes.
pub open spec fn larger(a: u32, b: u32) -> u32 {
    if a >= b { a } else { b }
}

/// How to place the window.
pub struct WindowPlacement {
    pub width: u32,
    pub height: u32,
    /// The top-left corner to move the window to, if any.
    pub position: Option<(i32, i32)>,
    /// Whether to center the window afterwards.
    pub center: bool,
    pub maximize: bool,
}

pub open spec fn clamp(v: int, lo: int, hi: int) -> int {
    if v < lo { lo } else if v > hi { hi } else { v }
}

pub open spec fn max_of(a: int, b: int) -> int {
    if a >= b { a } else { b }
}

/// `a + b` saturated to the range of `i32`.
pub open spec fn sat_add_i32(a: int, b: int) -> int {
    clamp(a + b, i32::MIN as int, i32::MAX as int)
}

/// Half of `d`, rounded toward zero.
pub open spec fn half_toward_zero(d: int) -> int {
    if d >= 0 { d / 2 } else { -((-d) / 2) }
}

/// A saved size counts when both sides are saved and at least the minimum.
pub open spec fn has_saved_size(s: SavedWindow) -> bool {
    s.width matches Some(w) && s.height matches Some(h) && w >= MIN_WINDOW_WIDTH && h >= MIN_WINDOW_HEIGHT
}

/// A saved position counts when both coordinates are saved and above -10000.
pub open spec fn has_saved_position(s: SavedWindow) -> bool {
    s.x matches Some(x) && s.y matches Some(y) && x > -10000 && y > -10000
}

pub open spec fn saved_or(v: Option<u32>, default: u32) -> int {
    match v {
        Some(x) => x as int,
        None => default as int,
    }
}

pub open spec fn saved_or_i32(v: Option<i32>, default: int) -> int {
    match v {
        Some(x) => x as int,
        None => default,
    }
}

/// The placement of the window: without a monitor, the saved size (at least the minimum) and
/// the saved position, or centred; on a monitor, the saved size (by default the larger of the
/// default size and the monitor's suggested one) kept between the minimum and
/// the monitor less a margin (32 by 64), and the saved position kept on the monitor, or the
/// window centred on it (and centred again when neither size nor position was saved). The
/// window is maximised when it was.
pub open spec fn placement(s: SavedWindow, monitor: Option<MonitorArea>) -> (int, int, Option<(int, int)>, bool, bool) {
    let maximize = s.maximized == Some(true);
    match monitor {
        None => {
            let w = max_of(saved_or(s.width, DEFAULT_WINDOW_WIDTH), MIN_WINDOW_WIDTH as int);
            let h = max_of(saved_or(s.height, DEFAULT_WINDOW_HEIGHT), MIN_WINDOW_HEIGHT as int);
            if has_saved_position(s) {
                (w, h, Some((s.x.unwrap() as int, s.y.unwrap() as int)), false, maximize)
            } else {
                (w, h, None, true, maximize)
            }
        },
        Some(m) => {
            let max_w = if m.width >= 32 { m.width - 32 } else { 0 };
            let max_h = if m.height >= 64 { m.height - 64 } else { 0 };
            let w = clamp(
                saved_or(s.width, larger(DEFAULT_WINDOW_WIDTH, m.default_width)),
                MIN_WINDOW_WIDTH as int,
                max_of(max_w, MIN_WINDOW_WIDTH as int),
            );
            let h = clamp(
                saved_or(s.height, larger(DEFAULT_WINDOW_HEIGHT, m.default_height)),
                MIN_WINDOW_HEIGHT as int,
                max_of(max_h, MIN_WINDOW_HEIGHT as int),
            );
            let max_x = sat_add_i32(m.x as int, m.width - w);
            let max_y = sat_add_i32(m.y as int, m.height - h);
            let fallback_x = sat_add_i32(m.x as int, half_toward_zero(m.width - w));
            let fallback_y = sat_add_i32(m.y as int, half_toward_zero(m.height - h));
            let x = if has_saved_position(s) {
                clamp(saved_or_i32(s.x, fallback_x), m.x as int, max_of(max_x, m.x as int))
            } else {
                fallback_x
            };
            let y = if has_saved_position(s) {
                clamp(saved_or_i32(s.y, fallback_y), m.y as int, max_of(max_y, m.y as int))
            } else {
                fallback_y
            };
            (w, h, Some((x, y)), !has_saved_size(s) && !has_saved_position(s), maximize)
        },
    }
}

fn clamp_u32(v: u32, lo: u32, hi: u32) -> (r: u32)
    requires
        lo <= hi,
    ensures
        r == clamp(v as int, lo as int, hi as int),
{
    if v < lo { lo } else if v > hi { hi } else { v }
}

fn clamp_i32(v: i32, lo: i32, hi: i32) -> (r: i32)
    requires
        lo <= hi,
    ensures
        r == clamp(v as int, lo as int, hi as int),
{
    if v < lo { lo } else if v > hi { hi } else { v }
}

fn saturating_add_i32(a: i32, b: i32) -> (r: i32)
    ensures
        r == sat_add_i32(a as int, b as int),
{
    let s: i64 = a as i64 + b as i64;
    if s < -2147483648 {
        -2147483648
    } else if s > 2147483647 {
        2147483647
    } else {
        s as i32
    }
}

fn half_i32(d: i32) -> (r: i32)
    ensures
        r == half_toward_zero(d as int),
{
    if d >= 0 {
        d / 2
    } else {
        let m: i64 = -(d as i64);
        -((m / 2) as i32)
    }
}

/// Where to put the main window, from the saved geometry and the monitor it opens on (none
/// when the monitor cannot be read). Monitor sides are at most `i32::MAX`.
pub fn restore_main_window_state(saved: &SavedWindow, monitor: Option<&MonitorArea>) -> (r: WindowPlacement)
    requires
        monitor matches Some(m) ==> m.width <= i32::MAX && m.height <= i32::MAX,
    ensures
        (r.width as int, r.height as int, match r.position { Some((x, y)) => Some((x as int, y as int)), None => None }, r.center, r.maximize)
            == placement(*saved, match monitor { Some(m) => Some(*m), None => None }),
{
    let maximize = match saved.maximized {
        Some(b) => b,
        None => false,
    };
    let saved_size = match (saved.width, saved.height) {
        (Some(w), Some(h)) => w >= MIN_WINDOW_WIDTH && h >= MIN_WINDOW_HEIGHT,
        _ => false,
    };
    let saved_position = match (saved.x, saved.y) {
        (Some(x), Some(y)) => x > -10000 && y > -10000,
        _ => false,
    };
    let want_w = match saved.width {
        Some(w) => w,
        None => DEFAULT_WINDOW_WIDTH,
    };
    let want_h = match saved.height {
        Some(h) => h,
        None => DEFAULT_WINDOW_HEIGHT,
    };
    match monitor {
        None => {
            let w = if want_w >= MIN_WINDOW_WIDTH { want_w } else { MIN_WINDOW_WIDTH };
            let h = if want_h >= MIN_WINDOW_HEIGHT { want_h } else { MIN_WINDOW_HEIGHT };
            if saved_position {
                match (saved.x, saved.y) {
                    (Some(x), Some(y)) => WindowPlacement { width: w, height: h, position: Some((x, y)), center: false, maximize },
                    _ => WindowPlacement { width: w, height: h, position: None, center: true, maximize },
                }
            } else {
                WindowPlacement { width: w, height: h, position: None, center: true, maximize }
            }
        },
        Some(m) => {
            let max_w = if m.width >= 32 { m.width - 32 } else { 0 };
            let max_h = if m.height >= 64 { m.height - 64 } else { 0 };
            let want_w = match saved.width {
                Some(w) => w,
                None => if DEFAULT_WINDOW_WIDTH >= m.default_width { DEFAULT_WINDOW_WIDTH } else { m.default_width },
            };
            let want_h = match saved.height {
                Some(h) => h,
                None => if DEFAULT_WINDOW_HEIGHT >= m.default_height { DEFAULT_WINDOW_HEIGHT } else { m.default_height },
            };
            let w = clamp_u32(want_w, MIN_WINDOW_WIDTH, if max_w >= MIN_WINDOW_WIDTH { max_w } else { MIN_WINDOW_WIDTH });
            let h = clamp_u32(want_h, MIN_WINDOW_HEIGHT, if max_h >= MIN_WINDOW_HEIGHT { max_h } else { MIN_WINDOW_HEIGHT });
            let spare_w: i32 = (m.width as i64 - w as i64) as i32;
            let spare_h: i32 = (m.height as i64 - h as i64) as i32;
            let max_x = saturating_add_i32(m.x, spare_w);
            let max_y = saturating_add_i32(m.y, spare_h);
            let fallback_x = saturating_add_i32(m.x, half_i32(spare_w));
            let fallback_y = saturating_add_i32(m.y, half_i32(spare_h));
            let x = if saved_position {
                let sx = match saved.x {
                    Some(v) => v,
                    None => fallback_x,
                };
                clamp_i32(sx, m.x, if max_x >= m.x { max_x } else { m.x })
            } else {
                fallback_x
            };
            let y = if saved_position {
                let sy = match saved.y {
                    Some(v) => v,
                    None => fallback_y,
                };
                clamp_i32(sy, m.y, if max_y >= m.y { max_y } else { m.y })
            } else {
                fallback_y
            };
            WindowPlacement { width: w, height: h, position: Some((x, y)), center: !saved_size && !saved_position, maximize }
        },
    }
}


/// On a monitor with room for the smallest window (and not at the very edge of the
/// coordinate range), the window is placed entirely on the monitor, at least the minimum
/// size and at most the monitor less its margin.
pub proof fn law_window_stays_on_monitor(s: SavedWindow, m: MonitorArea)
    requires
        m.width >= MIN_WINDOW_WIDTH + 32,
        m.height >= MIN_WINDOW_HEIGHT + 64,
        m.x as int + m.width as int <= i32::MAX,
        m.y as int + m.height as int <= i32::MAX,
    ensures
        ({
            let (w, h, pos, center, maximize) = placement(s, Some(m));
            &&& MIN_WINDOW_WIDTH <= w <= m.width - 32
            &&& MIN_WINDOW_HEIGHT <= h <= m.height - 64
            &&& pos matches Some((x, y)) && m.x <= x && x + w <= m.x + m.width && m.y <= y && y + h <= m.y + m.height
        }),
{
    let (w, h, pos, center, maximize) = placement(s, Some(m));
    assert(0 <= half_toward_zero(m.width - w) <= m.width - w);
    assert(0 <= half_toward_zero(m.height - h) <= m.height - h);
}

} // verus!
