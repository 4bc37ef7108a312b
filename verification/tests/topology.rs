use region_capture::error::CaptureError;
use region_capture::topology::{bounds, DisplayDescriptor, ImplDesktop};

fn display(x: i32, y: i32, width: u32, height: u32) -> DisplayDescriptor {
    DisplayDescriptor { x, y, width, height }
}

#[test]
fn bounds_is_componentwise_min_and_max() {
    let displays = vec![
        display(0, 0, 1920, 1080),
        display(1920, 0, 1280, 1024),
        display(-100, -50, 640, 480),
    ];
    let b = bounds(&displays).unwrap();
    assert_eq!(b.x, -100);
    assert_eq!(b.y, -50);
    // Far corner: max right edge is 1920 + 1280 = 3200, max bottom is 1080.
    assert_eq!(b.x as i64 + b.width as i64, 3200);
    assert_eq!(b.y as i64 + b.height as i64, 1080);
    assert_eq!(b.width, 3300);
    assert_eq!(b.height, 1130);
}

#[test]
fn bounds_single_display_is_that_display() {
    let displays = vec![display(37, -12, 800, 600)];
    let b = bounds(&displays).unwrap();
    assert_eq!(b.x, 37);
    assert_eq!(b.y, -12);
    assert_eq!(b.width, 800);
    assert_eq!(b.height, 600);
}

#[test]
fn bounds_empty_topology_is_an_error() {
    let displays: Vec<DisplayDescriptor> = Vec::new();
    assert_eq!(bounds(&displays), Err(CaptureError::EmptyTopology));
}

#[test]
fn desktop_size_matches_bounds() {
    let displays = vec![display(0, 0, 1920, 1080), display(1920, 0, 1280, 1024)];
    let (w, h) = ImplDesktop::get_desktop_size(&displays).unwrap();
    assert_eq!(w, 3200);
    assert_eq!(h, 1080);
}

#[test]
fn desktop_size_empty_topology_is_an_error() {
    let displays: Vec<DisplayDescriptor> = Vec::new();
    assert_eq!(
        ImplDesktop::get_desktop_size(&displays),
        Err(CaptureError::EmptyTopology)
    );
}

#[test]
fn well_formedness_check_rejects_unrepresentable_far_corner() {
    assert!(display(0, 0, 1920, 1080).check_wf());
    assert!(!display(i32::MAX - 10, 0, 100, 100).check_wf());
    assert!(!display(0, i32::MAX - 10, 100, 100).check_wf());
}
