use codex_island::foreground::{
    client_area_fills_monitor, immersive_active, is_desktop_surface,
    point_in_rect, rect_fills_monitor, style_has_caption, ForegroundWindow, ScreenPoint,
    ScreenRect,
};

const WS_CAPTION: u32 = 0x00C0_0000;

fn rect(left: i32, top: i32, right: i32, bottom: i32) -> ScreenRect {
    ScreenRect { left, top, right, bottom }
}

fn pt(x: i32, y: i32) -> ScreenPoint {
    ScreenPoint { x, y }
}

fn screen() -> ScreenRect {
    rect(0, 0, 1920, 1080)
}

fn window(title: &str, class_name: &str, r: ScreenRect, zoomed: bool, style: u32, client: Option<(ScreenPoint, ScreenPoint)>) -> ForegroundWindow {
    ForegroundWindow {
        owned_by_self: false,
        title: title.to_string(),
        class_name: class_name.to_string(),
        window_rect: Some(r),
        monitor_rect: Some(screen()),
        zoomed,
        style,
        client_corners: client,
    }
}

#[test]
fn desktop_surfaces() {
    assert!(is_desktop_surface("Program Manager", "Progman"));
    assert!(is_desktop_surface("", "WorkerW"));
    assert!(is_desktop_surface("My DESKTOP fences", "X"));
    assert!(is_desktop_surface("Windows", "输入体验"));
    assert!(!is_desktop_surface("Video Player", "PlayerWindow"));
    assert!(!is_desktop_surface("Windows", "Input"));
}

#[test]
fn fills_monitor_tolerance() {
    assert!(rect_fills_monitor(rect(2, 2, 1918, 1078), screen()));
    assert!(!rect_fills_monitor(rect(3, 0, 1920, 1080), screen()));
    assert!(rect_fills_monitor(rect(-8, -8, 1928, 1088), screen()));
    assert!(rect_fills_monitor(rect(i32::MIN, i32::MIN, i32::MAX, i32::MAX), rect(i32::MAX, i32::MAX, i32::MIN, i32::MIN)));
    assert!(client_area_fills_monitor(Some((pt(0, 0), pt(1920, 1080))), screen()));
    assert!(!client_area_fills_monitor(Some((pt(0, 23), pt(1920, 1040))), screen()));
    assert!(!client_area_fills_monitor(None, screen()));
    assert!(style_has_caption(WS_CAPTION));
    assert!(!style_has_caption(0x1000_0000));
}

#[test]
fn full_screen_borderless_is_immersive() {
    let w = window("Game", "GameClass", rect(0, 0, 1920, 1080), false, 0, None);
    assert!(immersive_active(&Some(w)));
}

#[test]
fn maximized_framed_window_is_not_immersive() {
    let w = window("Editor", "EditorClass", rect(-8, -8, 1928, 1048), true, WS_CAPTION, Some((pt(0, 23), pt(1920, 1040))));
    assert!(!immersive_active(&Some(w)));
    let w = window("Editor", "EditorClass", rect(-8, -8, 1928, 1088), true, WS_CAPTION, Some((pt(0, 23), pt(1920, 1040))));
    assert!(!immersive_active(&Some(w)));
}

#[test]
fn maximized_captioned_browser_in_full_screen_is_immersive() {
    let w = window("Video", "Chrome_WidgetWin_1", rect(-8, -8, 1928, 1088), true, WS_CAPTION, Some((pt(0, 0), pt(1920, 1080))));
    assert!(immersive_active(&Some(w)));
    let w = window("Video", "Frameless", rect(0, 0, 1920, 1080), true, 0, None);
    assert!(immersive_active(&Some(w)));
}

#[test]
fn not_immersive_cases() {
    assert!(!immersive_active(&None));
    let mut own = window("Codex Island", "Island", rect(0, 0, 1920, 1080), false, 0, None);
    own.owned_by_self = true;
    assert!(!immersive_active(&Some(own)));
    let shell = window("", "WorkerW", rect(0, 0, 1920, 1080), false, 0, None);
    assert!(!immersive_active(&Some(shell)));
    let small = window("Notes", "Notes", rect(100, 100, 800, 600), false, 0, None);
    assert!(!immersive_active(&Some(small)));
    let mut unreadable = window("Game", "Game", rect(0, 0, 1920, 1080), false, 0, None);
    unreadable.monitor_rect = None;
    assert!(!immersive_active(&Some(unreadable)));
    let mut no_rect = window("Game", "Game", rect(0, 0, 1920, 1080), false, 0, None);
    no_rect.window_rect = None;
    assert!(!immersive_active(&Some(no_rect)));
}

#[test]
fn cursor_hit_test() {
    let r = rect(10, 20, 30, 40);
    assert!(point_in_rect(pt(10, 20), r));
    assert!(point_in_rect(pt(29, 39), r));
    assert!(!point_in_rect(pt(30, 20), r));
    assert!(!point_in_rect(pt(10, 40), r));
    assert!(!point_in_rect(pt(9, 25), r));
    assert!(!point_in_rect(pt(15, 19), r));
}
