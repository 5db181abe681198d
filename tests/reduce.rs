use desktop_windows::{filter_impurities, JsDesktopWindowInfo, WindowBounds};

fn wb(x: i32, y: i32, width: i32, height: i32) -> WindowBounds {
    WindowBounds { title: String::new(), x, y, width, height }
}

fn titled(title: &str, x: i32, y: i32, width: i32, height: i32) -> WindowBounds {
    WindowBounds { title: title.to_string(), x, y, width, height }
}

#[test]
fn reduce_drops_contained_keeps_order() {
    let mut list = vec![wb(0, 0, 200, 200), wb(10, 10, 50, 50), wb(300, 300, 40, 40)];
    filter_impurities(&mut list);
    assert_eq!(list, vec![wb(0, 0, 200, 200), wb(300, 300, 40, 40)]);
}

#[test]
fn reduce_drops_window_held_by_later_one() {
    let mut list = vec![wb(10, 10, 50, 50), wb(300, 300, 40, 40), wb(0, 0, 200, 200)];
    filter_impurities(&mut list);
    assert_eq!(list, vec![wb(300, 300, 40, 40), wb(0, 0, 200, 200)]);
}

#[test]
fn reduce_keeps_first_of_identical() {
    let mut list = vec![titled("a", 5, 5, 60, 60), titled("b", 5, 5, 60, 60)];
    filter_impurities(&mut list);
    assert_eq!(list, vec![titled("a", 5, 5, 60, 60)]);
}

#[test]
fn reduce_keeps_partial_overlaps() {
    let mut list = vec![wb(0, 0, 100, 100), wb(50, 50, 100, 100)];
    filter_impurities(&mut list);
    assert_eq!(list, vec![wb(0, 0, 100, 100), wb(50, 50, 100, 100)]);
}

#[test]
fn reduce_shared_edge_counts_as_inside() {
    let mut list = vec![wb(0, 0, 100, 100), wb(0, 0, 100, 40), wb(60, 60, 40, 40)];
    filter_impurities(&mut list);
    assert_eq!(list, vec![wb(0, 0, 100, 100)]);
}

#[test]
fn reduce_nested_chain_keeps_outermost() {
    let mut list = vec![wb(20, 20, 10, 10), wb(10, 10, 50, 50), wb(0, 0, 200, 200)];
    filter_impurities(&mut list);
    assert_eq!(list, vec![wb(0, 0, 200, 200)]);
}

#[test]
fn reduce_empty_list() {
    let mut list: Vec<WindowBounds> = vec![];
    filter_impurities(&mut list);
    assert!(list.is_empty());
}

#[test]
fn reduce_extreme_coordinates() {
    let mut list = vec![wb(i32::MAX - 10, 0, i32::MAX, 100), wb(i32::MAX - 5, 10, 20, 20)];
    filter_impurities(&mut list);
    assert_eq!(list, vec![wb(i32::MAX - 10, 0, i32::MAX, 100)]);
}

#[test]
fn reduce_twice_is_reduce_once() {
    let mut once = vec![
        wb(0, 0, 100, 100),
        wb(50, 50, 100, 100),
        wb(60, 60, 10, 10),
        wb(0, 0, 100, 100),
        wb(500, 0, 10, 10),
    ];
    filter_impurities(&mut once);
    let mut twice = once.clone();
    filter_impurities(&mut twice);
    assert_eq!(once, twice);
    assert_eq!(once, vec![wb(0, 0, 100, 100), wb(50, 50, 100, 100), wb(500, 0, 10, 10)]);
}

#[test]
fn reduce_permuted_input_same_set() {
    let a = vec![wb(0, 0, 200, 200), wb(10, 10, 50, 50), wb(300, 300, 40, 40), wb(250, 0, 10, 10)];
    let b = vec![wb(300, 300, 40, 40), wb(250, 0, 10, 10), wb(10, 10, 50, 50), wb(0, 0, 200, 200)];
    let mut ra = a.clone();
    let mut rb = b.clone();
    filter_impurities(&mut ra);
    filter_impurities(&mut rb);
    assert_eq!(ra.len(), rb.len());
    for w in &ra {
        assert!(rb.contains(w));
    }
}

#[test]
fn reduced_result_has_no_containment_pairs() {
    let mut list = vec![
        wb(0, 0, 50, 50),
        wb(10, 10, 100, 100),
        wb(20, 20, 10, 10),
        wb(10, 10, 100, 100),
        wb(5, 5, 5, 5),
    ];
    filter_impurities(&mut list);
    for (i, a) in list.iter().enumerate() {
        for (j, b) in list.iter().enumerate() {
            if i != j {
                let inside = a.x >= b.x
                    && a.y >= b.y
                    && a.x + a.width <= b.x + b.width
                    && a.y + a.height <= b.y + b.height;
                assert!(!inside);
            }
        }
    }
}

#[test]
fn from_window_list_reduces() {
    let info = JsDesktopWindowInfo::from_window_list(vec![
        wb(0, 0, 200, 200),
        wb(10, 10, 50, 50),
        wb(300, 300, 40, 40),
    ]);
    assert_eq!(info.win_rects, vec![wb(0, 0, 200, 200), wb(300, 300, 40, 40)]);
}
