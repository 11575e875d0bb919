use ili9488_parallel::geometry::{AddressWindow, PanelGeometry, Point, Rotation};

fn panel() -> PanelGeometry {
    PanelGeometry { width: 480, height: 320, rotation: Rotation::Deg0 }
}

#[test]
fn geometry_validity() {
    assert!(panel().is_valid());
    assert!(!PanelGeometry { width: 0, height: 320, rotation: Rotation::Deg0 }.is_valid());
    assert!(!PanelGeometry { width: 480, height: 0, rotation: Rotation::Deg0 }.is_valid());
    assert!(PanelGeometry { width: 1, height: 1, rotation: Rotation::Deg180 }.is_valid());
}

#[test]
fn full_window_covers_the_panel() {
    assert_eq!(panel().full_window(), AddressWindow::new(0, 0, 479, 319));
    assert_eq!(panel().full_window().pixel_count(), 153600);
    let tall = PanelGeometry { width: 320, height: 480, rotation: Rotation::Deg90 };
    assert_eq!(tall.full_window(), AddressWindow::new(0, 0, 319, 479));
    let dot = PanelGeometry { width: 1, height: 1, rotation: Rotation::Deg0 };
    assert_eq!(dot.full_window(), AddressWindow::new(0, 0, 0, 0));
}

#[test]
fn points_on_and_off_the_panel() {
    let g = panel();
    assert!(g.has_point(Point { x: 0, y: 0 }));
    assert!(g.has_point(Point { x: 479, y: 319 }));
    assert!(!g.has_point(Point { x: 480, y: 0 }));
    assert!(!g.has_point(Point { x: 0, y: 320 }));
    assert!(!g.has_point(Point { x: -1, y: 0 }));
    assert!(!g.has_point(Point { x: 0, y: -1 }));
    assert!(!g.has_point(Point { x: i32::MAX, y: i32::MIN }));
    assert!(!g.has_point(Point { x: 65536 + 10, y: 20 }));
}

#[test]
fn windows_that_fit_and_do_not() {
    let g = panel();
    assert!(AddressWindow::new(0, 0, 479, 319).fits(&g));
    assert!(AddressWindow::new(10, 20, 10, 20).fits(&g));
    assert!(!AddressWindow::new(0, 0, 480, 319).fits(&g));
    assert!(!AddressWindow::new(0, 0, 479, 320).fits(&g));
    assert!(!AddressWindow::new(11, 0, 10, 5).fits(&g));
    assert!(!AddressWindow::new(0, 6, 10, 5).fits(&g));
    assert!(!AddressWindow::new(0, 0, 65535, 65535).fits(&g));
}

#[test]
fn pixel_counts() {
    assert_eq!(AddressWindow::new(0, 0, 0, 0).pixel_count(), 1);
    assert_eq!(AddressWindow::new(2, 3, 4, 7).pixel_count(), 15);
    assert_eq!(AddressWindow::new(5, 0, 4, 0).pixel_count(), 0);
    assert_eq!(AddressWindow::new(0, 5, 0, 4).pixel_count(), 0);
    assert_eq!(AddressWindow::new(0, 0, 65535, 65535).pixel_count(), 4294967296);
}
