use multiplayer::snap::{snap_position, AllWindowEdges, WindowEdges};

fn shown(left: i32, top: i32, width: i32, height: i32) -> WindowEdges {
    WindowEdges {
        left,
        right: left + width,
        top,
        bottom: top + height,
        width,
        height,
        shown: true,
        wants_front: false,
    }
}

#[test]
fn snaps_beside_a_window_it_overlaps_vertically() {
    let edges = [WindowEdges::default(), shown(100, 100, 200, 200)];
    assert_eq!(snap_position(&edges, 0, 305, 150, 50, 50), (300, 150));
    assert_eq!(snap_position(&edges, 0, 40, 150, 50, 50), (50, 150));
}

#[test]
fn snaps_flush_below_a_window() {
    let edges = [WindowEdges::default(), shown(100, 100, 200, 200)];
    assert_eq!(snap_position(&edges, 0, 103, 305, 50, 50), (100, 300));
    assert_eq!(snap_position(&edges, 0, 245, 305, 50, 50), (250, 300));
}

#[test]
fn far_windows_do_not_attract() {
    let edges = [WindowEdges::default(), shown(100, 100, 200, 200)];
    assert_eq!(snap_position(&edges, 0, 500, 500, 50, 50), (500, 500));
    assert_eq!(snap_position(&edges, 0, 316, 150, 50, 50), (316, 150));
}

#[test]
fn the_threshold_is_strict() {
    let edges = [WindowEdges::default(), shown(100, 100, 200, 200)];
    assert_eq!(snap_position(&edges, 0, 315, 150, 50, 50), (300, 150));
    assert_eq!(snap_position(&edges, 0, 316, 150, 50, 50), (316, 150));
}

#[test]
fn hidden_windows_and_the_window_itself_are_ignored() {
    let mut hidden = shown(100, 100, 200, 200);
    hidden.shown = false;
    let edges = [WindowEdges::default(), hidden];
    assert_eq!(snap_position(&edges, 0, 305, 150, 50, 50), (305, 150));
    let edges = [shown(100, 100, 200, 200)];
    assert_eq!(snap_position(&edges, 0, 305, 150, 50, 50), (305, 150));
}

#[test]
fn the_nearest_edge_wins() {
    let edges = [WindowEdges::default(), shown(100, 100, 200, 200), shown(308, 100, 100, 200)];
    // between two windows: our left is 4 from the first's right, our right
    // is 2 from the second's left
    assert_eq!(snap_position(&edges, 0, 304, 150, 2, 50), (306, 150));
}

#[test]
fn update_records_geometry_and_raises_once() {
    let mut e = WindowEdges::default();
    assert!(!e.update(10, 20, 30, 40, true));
    assert_eq!((e.left, e.right, e.top, e.bottom, e.width, e.height), (10, 40, 20, 60, 30, 40));
    e.wants_front = true;
    assert!(!e.update(10, 20, 30, 40, false));
    assert!(e.wants_front);
    assert!(e.update(11, 20, 30, 40, true));
    assert!(!e.wants_front);
}

#[test]
fn front_and_front_all_mark_windows() {
    let mut hidden = shown(0, 0, 1, 1);
    hidden.shown = false;
    let mut all = AllWindowEdges { edges: vec![shown(0, 0, 1, 1), hidden, shown(5, 5, 1, 1)] };
    all.front(1);
    assert!(all.edges[1].wants_front);
    all.front_all();
    let marks: Vec<bool> = all.edges.iter().map(|e| e.wants_front).collect();
    assert_eq!(marks, vec![true, false, true]);
}

#[test]
fn snapping_never_moves_a_window_far() {
    let edges = [WindowEdges::default(), shown(100, 100, 200, 200), shown(330, 40, 60, 500)];
    for x in (0..500).step_by(7) {
        for y in (0..500).step_by(11) {
            let (nx, ny) = snap_position(&edges, 0, x, y, 40, 30);
            assert!((nx - x).abs() < 16 && (ny - y).abs() < 16, "{x},{y} -> {nx},{ny}");
        }
    }
}
