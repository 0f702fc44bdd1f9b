//! Screen geometry of the foreground window: whether it is a genuine
//! full-screen surface (which puts the island into immersive mode), and
//! whether the cursor lies over one of the island's windows. Coordinates are
//! physical screen pixels.

use vstd::prelude::*;
use crate::text::{ascii_lower, chars_of, contains_chars, contains_text, lower_chars};

verus! {

/// A rectangle by its edges; `right` and `bottom` lie just outside it.
#[derive(Clone, Copy)]
pub struct ScreenRect {
    pub left: i32,
    pub top: i32,
    pub right: i32,
    pub bottom: i32,
}

#[derive(Clone, Copy)]
pub struct ScreenPoint {
    pub x: i32,
    pub y: i32,
}

/// What is known of the foreground window when the island asks.
pub struct ForegroundWindow {
    /// The window belongs to this process.
    pub owned_by_self: bool,
    pub title: String,
    pub class_name: String,
    /// The window's outer rectangle, when it could be read.
    pub window_rect: Option<ScreenRect>,
    /// The rectangle of the monitor the window is on, when it could be read.
    pub monitor_rect: Option<ScreenRect>,
    /// The window is maximized.
    pub zoomed: bool,
    /// The window's style bits.
    pub style: u32,
    /// The top-left and bottom-right corners of the client area in screen
    /// coordinates, when all of them could be read.
    pub client_corners: Option<(ScreenPoint, ScreenPoint)>,
}

/// How far, in pixels, an edge may fall short of the monitor's edge.
pub open spec fn edge_tolerance() -> int {
    2
}

/// Title words of desktop shells and desktop overlays, which own the
/// foreground while the user works normally.
pub open spec fn desktop_surface_terms() -> Seq<Seq<char>> {
    seq!["progman"@, "workerw"@, "desktop"@, "fence"@, "textinputhost"@, "windows 输入体验"@]
}

/// The title and class of a window, separated by a space, ASCII lower-cased.
pub open spec fn window_identity(title: Seq<char>, class_name: Seq<char>) -> Seq<char> {
    ascii_lower(title + seq![' '] + class_name)
}

pub open spec fn is_desktop_surface_text(title: Seq<char>, class_name: Seq<char>) -> bool {
    exists|i: int|
        0 <= i < desktop_surface_terms().len() && contains_text(
            window_identity(title, class_name),
            #[trigger] desktop_surface_terms()[i],
        )
}

/// Whether the window with this title and class is a desktop shell or overlay.
pub fn is_desktop_surface(title: &str, class_name: &str) -> (r: bool)
    ensures
        r == is_desktop_surface_text(title@, class_name@),
{
    let mut identity = chars_of(title);
    identity.push(' ');
    let mut class_chars = chars_of(class_name);
    identity.append(&mut class_chars);
    assert(identity@ == title@ + seq![' '] + class_name@);
    let identity = lower_chars(&identity);
    let terms: [&str; 6] = ["progman", "workerw", "desktop", "fence", "textinputhost", "windows 输入体验"];
    let mut i: usize = 0;
    while i < 6
        invariant
            i <= 6,
            terms@ == seq!["progman", "workerw", "desktop", "fence", "textinputhost", "windows 输入体验"],
            identity@ == window_identity(title@, class_name@),
            forall|j: int|
                0 <= j < i ==> !contains_text(identity@, #[trigger] desktop_surface_terms()[j]),
        decreases 6 - i,
    {
        assert(terms@[i as int]@ == desktop_surface_terms()[i as int]);
        let term = chars_of(terms[i]);
        if contains_chars(&identity, &term) {
            return true;
        }
        i = i + 1;
    }
    false
}

/// `r` reaches every edge of `screen` within the tolerance.
pub open spec fn fills_monitor(r: ScreenRect, screen: ScreenRect) -> bool {
    &&& r.left <= screen.left + edge_tolerance()
    &&& r.top <= screen.top + edge_tolerance()
    &&& r.right >= screen.right - edge_tolerance()
    &&& r.bottom >= screen.bottom - edge_tolerance()
}

pub fn rect_fills_monitor(r: ScreenRect, screen: ScreenRect) -> (b: bool)
    ensures
        b == fills_monitor(r, screen),
{
    (r.left as i64) <= (screen.left as i64) + 2 && (r.top as i64) <= (screen.top as i64) + 2
        && (r.right as i64) >= (screen.right as i64) - 2 && (r.bottom as i64) >= (
    screen.bottom as i64) - 2
}

/// The client area, by its corners, reaches every edge of `screen` within the tolerance.
pub open spec fn client_fills_monitor(corners: Option<(ScreenPoint, ScreenPoint)>, screen: ScreenRect) -> bool {
    match corners {
        Some((tl, br)) => {
            &&& tl.x <= screen.left + edge_tolerance()
            &&& tl.y <= screen.top + edge_tolerance()
            &&& br.x >= screen.right - edge_tolerance()
            &&& br.y >= screen.bottom - edge_tolerance()
        },
        None => false,
    }
}

pub fn client_area_fills_monitor(corners: Option<(ScreenPoint, ScreenPoint)>, screen: ScreenRect) -> (b: bool)
    ensures
        b == client_fills_monitor(corners, screen),
{
    match corners {
        Some((tl, br)) => (tl.x as i64) <= (screen.left as i64) + 2 && (tl.y as i64) <= (
        screen.top as i64) + 2 && (br.x as i64) >= (screen.right as i64) - 2 && (br.y as i64) >= (
        screen.bottom as i64) - 2,
        None => false,
    }
}

/// The window has a caption (title bar and border).
pub open spec fn has_caption(style: u32) -> bool {
    style & 0x00C0_0000u32 != 0
}

pub fn style_has_caption(style: u32) -> (r: bool)
    ensures
        r == has_caption(style),
{
    style & 0x00C0_0000u32 != 0
}

/// A window that fills the monitor is full screen when it is not maximized,
/// or has no caption, or its client area fills the monitor as well.
pub open spec fn full_screen(fills: bool, zoomed: bool, frameless: bool, client_fills: bool) -> bool {
    fills && (!zoomed || frameless || client_fills)
}

/// Whether the foreground window puts the island into immersive mode: it
/// belongs to another process, is no desktop shell or overlay, and is a
/// full-screen surface of its monitor.
pub open spec fn immersive(fg: Option<ForegroundWindow>) -> bool {
    match fg {
        None => false,
        Some(w) => {
            &&& !w.owned_by_self
            &&& !is_desktop_surface_text(w.title@, w.class_name@)
            &&& w.window_rect is Some
            &&& w.monitor_rect is Some
            &&& full_screen(
                fills_monitor(w.window_rect->0, w.monitor_rect->0),
                w.zoomed,
                !has_caption(w.style),
                client_fills_monitor(w.client_corners, w.monitor_rect->0),
            )
        },
    }
}

/// Decides immersive mode for the foreground window (`None` when there is none).
pub fn immersive_active(fg: &Option<ForegroundWindow>) -> (r: bool)
    ensures
        r == immersive(*fg),
{
    match fg {
        None => false,
        Some(w) => {
            if w.owned_by_self {
                return false;
            }
            if is_desktop_surface(w.title.as_str(), w.class_name.as_str()) {
                return false;
            }
            let rect = match w.window_rect {
                Some(r) => r,
                None => return false,
            };
            let screen = match w.monitor_rect {
                Some(s) => s,
                None => return false,
            };
            let fills = rect_fills_monitor(rect, screen);
            let frameless = !style_has_caption(w.style);
            let client_fills = client_area_fills_monitor(w.client_corners, screen);
            fills && (!w.zoomed || frameless || client_fills)
        },
    }
}

/// Immersive mode needs a foreign, non-desktop window that covers its
/// monitor; a maximized window with a caption whose client area does not
/// cover the monitor (an ordinary maximized window) never enters it.
pub proof fn lemma_immersive_needs_full_screen(fg: ForegroundWindow)
    ensures
        immersive(Some(fg)) ==> !fg.owned_by_self && !is_desktop_surface_text(
            fg.title@,
            fg.class_name@,
        ) && fg.window_rect is Some && fg.monitor_rect is Some,
        immersive(Some(fg)) ==> ({
            let r = fg.window_rect->0;
            let m = fg.monitor_rect->0;
            &&& r.left <= m.left + 2
            &&& r.top <= m.top + 2
            &&& r.right >= m.right - 2
            &&& r.bottom >= m.bottom - 2
        }),
        fg.zoomed && (fg.style & 0x00C0_0000u32 != 0) && (fg.monitor_rect matches Some(m) && !(
        fg.client_corners matches Some((tl, br)) && tl.x <= m.left + 2 && tl.y <= m.top + 2 && br.x
            >= m.right - 2 && br.y >= m.bottom - 2)) ==> !immersive(Some(fg)),
{
}

/// `p` lies inside `r` (left and top edges included, right and bottom excluded).
pub open spec fn point_in(p: ScreenPoint, r: ScreenRect) -> bool {
    p.x >= r.left && p.x < r.right && p.y >= r.top && p.y < r.bottom
}

pub fn point_in_rect(p: ScreenPoint, r: ScreenRect) -> (b: bool)
    ensures
        b == point_in(p, r),
{
    p.x >= r.left && p.x < r.right && p.y >= r.top && p.y < r.bottom
}

} // verus!
