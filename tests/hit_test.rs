use desktop_windows::{JsDesktopWindowInfo, Rect, WindowBounds};

fn wb(x: i32, y: i32, width: i32, height: i32) -> WindowBounds {
    WindowBounds { title: String::new(), x, y, width, height }
}

#[test]
fn hit_test_first_match_wins() {
    let info = JsDesktopWindowInfo::new(vec![wb(0, 0, 100, 100), wb(10, 10, 20, 20)]);
    assert_eq!(info.is_overlaps(15, 15), Some(wb(0, 0, 100, 100)));
}

#[test]
fn hit_test_later_window_when_first_misses() {
    let info = JsDesktopWindowInfo::new(vec![wb(0, 0, 10, 10), wb(50, 50, 20, 20)]);
    assert_eq!(info.is_overlaps(60, 55), Some(wb(50, 50, 20, 20)));
}

#[test]
fn hit_test_edges_included() {
    let info = JsDesktopWindowInfo::new(vec![wb(10, 10, 20, 20)]);
    assert_eq!(info.is_overlaps(10, 10), Some(wb(10, 10, 20, 20)));
    assert_eq!(info.is_overlaps(30, 30), Some(wb(10, 10, 20, 20)));
    assert_eq!(info.is_overlaps(31, 30), None);
    assert_eq!(info.is_overlaps(9, 10), None);
}

#[test]
fn hit_test_none_on_empty() {
    let info = JsDesktopWindowInfo::new(vec![]);
    assert_eq!(info.is_overlaps(0, 0), None);
}

#[test]
fn hit_test_keeps_title() {
    let w = WindowBounds { title: "Editor".to_string(), x: 0, y: 0, width: 10, height: 10 };
    let info = JsDesktopWindowInfo::new(vec![w.clone()]);
    assert_eq!(info.is_overlaps(5, 5).map(|r| r.title), Some("Editor".to_string()));
}

#[test]
fn hit_test_no_overflow_at_extremes() {
    let info = JsDesktopWindowInfo::new(vec![wb(i32::MAX - 1, i32::MAX - 1, i32::MAX, i32::MAX)]);
    assert_eq!(info.is_overlaps(i32::MAX, i32::MAX), Some(wb(i32::MAX - 1, i32::MAX - 1, i32::MAX, i32::MAX)));
    assert_eq!(info.is_overlaps(0, 0), None);
}

#[test]
fn bounds_from_rect() {
    let rect = Rect { left: 10, top: 20, right: 110, bottom: 70 };
    let w = WindowBounds::new(rect, "t".to_string());
    assert_eq!(w, WindowBounds { title: "t".to_string(), x: 10, y: 20, width: 100, height: 50 });
}
