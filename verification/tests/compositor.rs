use region_capture::buffer::PixelBuffer;
use region_capture::compositor::{compose, plan, CaptureRect, CaptureRequest};
use region_capture::error::CaptureError;
use region_capture::topology::DisplayDescriptor;

fn display(x: i32, y: i32, width: u32, height: u32) -> DisplayDescriptor {
    DisplayDescriptor { x, y, width, height }
}

fn rect(x: i32, y: i32, width: u32, height: u32) -> CaptureRect {
    CaptureRect { x, y, width, height }
}

/// A sub-buffer for `width * height` pixels whose byte `i` is
/// `(seed + i) % 251`, so every byte is distinguishable by position.
fn patterned(seed: usize, width: u32, height: u32) -> Vec<u8> {
    let n = width as usize * height as usize * 4;
    let mut v = Vec::with_capacity(n);
    let mut i = 0;
    while i < n {
        v.push(((seed + i) % 251) as u8);
        i += 1;
    }
    v
}

fn byte_at(buffer: &PixelBuffer, px: u32, py: u32, c: u32) -> u8 {
    buffer.pixels[((py * buffer.width + px) * 4 + c) as usize]
}

#[test]
fn zero_area_plans_nothing() {
    let displays = vec![display(0, 0, 1920, 1080)];
    assert!(plan(&rect(10, 10, 0, 0), &displays).is_empty());
    assert!(plan(&rect(10, 10, 0, 5), &displays).is_empty());
    assert!(plan(&rect(10, 10, 5, 0), &displays).is_empty());
}

#[test]
fn zero_area_compose_is_the_empty_region_no_op() {
    let empty_plan: Vec<CaptureRequest> = Vec::new();
    let no_parts: Vec<Option<Vec<u8>>> = Vec::new();
    assert_eq!(
        compose(0, 0, &empty_plan, &no_parts),
        Err(CaptureError::EmptyRegion)
    );
    assert_eq!(
        compose(0, 7, &empty_plan, &no_parts),
        Err(CaptureError::EmptyRegion)
    );
}

#[test]
fn single_display_capture_is_identity_with_opaque_alpha() {
    let displays = vec![display(0, 0, 100, 50)];
    let r = rect(10, 5, 8, 4);
    let p = plan(&r, &displays);
    assert_eq!(p.len(), 1);
    assert_eq!(
        p[0],
        CaptureRequest {
            display: 0,
            local_x: 10,
            local_y: 5,
            dest_x: 0,
            dest_y: 0,
            width: 8,
            height: 4,
        }
    );
    let part = patterned(3, 8, 4);
    let parts = vec![Some(part.clone())];
    let buffer = compose(8, 4, &p, &parts).unwrap();
    assert_eq!(buffer.width, 8);
    assert_eq!(buffer.height, 4);
    for i in 0..part.len() {
        if i % 4 == 3 {
            assert_eq!(buffer.pixels[i], 255);
        } else {
            assert_eq!(buffer.pixels[i], part[i]);
        }
    }
}

#[test]
fn selection_spanning_two_adjacent_displays_splits_at_the_seam() {
    // Display A at (0,0) 1920x1080, display B at (1920,0) 1280x1024; the
    // selection (1800,100) 300x200 takes its left 120 columns from A's
    // local (1800,100) 120x200 and its right 180 columns from B's local
    // (0,100) 180x200.
    let displays = vec![display(0, 0, 1920, 1080), display(1920, 0, 1280, 1024)];
    let r = rect(1800, 100, 300, 200);
    let p = plan(&r, &displays);
    assert_eq!(p.len(), 2);
    assert_eq!(
        p[0],
        CaptureRequest {
            display: 0,
            local_x: 1800,
            local_y: 100,
            dest_x: 0,
            dest_y: 0,
            width: 120,
            height: 200,
        }
    );
    assert_eq!(
        p[1],
        CaptureRequest {
            display: 1,
            local_x: 0,
            local_y: 100,
            dest_x: 120,
            dest_y: 0,
            width: 180,
            height: 200,
        }
    );
    let part_a = patterned(7, 120, 200);
    let part_b = patterned(101, 180, 200);
    let parts = vec![Some(part_a.clone()), Some(part_b.clone())];
    let buffer = compose(300, 200, &p, &parts).unwrap();
    for py in 0..200u32 {
        for px in 0..300u32 {
            for c in 0..4u32 {
                let got = byte_at(&buffer, px, py, c);
                if c == 3 {
                    assert_eq!(got, 255);
                } else if px < 120 {
                    let src = ((py * 120 + px) * 4 + c) as usize;
                    assert_eq!(got, part_a[src]);
                } else {
                    let src = ((py * 180 + (px - 120)) * 4 + c) as usize;
                    assert_eq!(got, part_b[src]);
                }
            }
        }
    }
}

#[test]
fn selection_outside_every_display_is_a_transparent_success() {
    let displays = vec![display(0, 0, 100, 100)];
    let r = rect(500, 500, 10, 10);
    let p = plan(&r, &displays);
    assert!(p.is_empty());
    let parts: Vec<Option<Vec<u8>>> = Vec::new();
    let buffer = compose(10, 10, &p, &parts).unwrap();
    assert_eq!(buffer.pixels.len(), 10 * 10 * 4);
    assert!(buffer.pixels.iter().all(|&b| b == 0));
}

#[test]
fn all_intersecting_captures_failing_is_a_device_error() {
    let displays = vec![display(0, 0, 100, 100)];
    let p = plan(&rect(10, 10, 20, 20), &displays);
    assert_eq!(p.len(), 1);
    let parts: Vec<Option<Vec<u8>>> = vec![None];
    assert_eq!(
        compose(20, 20, &p, &parts),
        Err(CaptureError::CaptureDevice)
    );
}

#[test]
fn one_failed_display_is_skipped_and_masked() {
    // Two side-by-side 10x10 displays; the selection covers both, the
    // left one's capture fails.  The composite succeeds: the left half
    // stays transparent, the right half carries the right display's
    // pixels.
    let displays = vec![display(0, 0, 10, 10), display(10, 0, 10, 10)];
    let r = rect(0, 0, 20, 10);
    let p = plan(&r, &displays);
    assert_eq!(p.len(), 2);
    let part_b = patterned(11, 10, 10);
    let parts = vec![None, Some(part_b.clone())];
    let buffer = compose(20, 10, &p, &parts).unwrap();
    for py in 0..10u32 {
        for px in 0..20u32 {
            for c in 0..4u32 {
                let got = byte_at(&buffer, px, py, c);
                if px < 10 {
                    assert_eq!(got, 0);
                } else if c == 3 {
                    assert_eq!(got, 255);
                } else {
                    let src = ((py * 10 + (px - 10)) * 4 + c) as usize;
                    assert_eq!(got, part_b[src]);
                }
            }
        }
    }
}

#[test]
fn overlapping_displays_later_one_wins() {
    let displays = vec![display(0, 0, 4, 4), display(0, 0, 4, 4)];
    let r = rect(0, 0, 4, 4);
    let p = plan(&r, &displays);
    assert_eq!(p.len(), 2);
    let first = vec![1u8; 64];
    let second = vec![2u8; 64];
    let parts = vec![Some(first), Some(second)];
    let buffer = compose(4, 4, &p, &parts).unwrap();
    for i in 0..64 {
        if i % 4 == 3 {
            assert_eq!(buffer.pixels[i], 255);
        } else {
            assert_eq!(buffer.pixels[i], 2);
        }
    }
}

#[test]
fn a_short_sub_buffer_only_fills_the_pixels_it_holds() {
    // The part holds bytes for the first six of sixteen pixels: the
    // seventh pixel's fourth byte is missing, so copying stops there and
    // the rest stays transparent.
    let displays = vec![display(0, 0, 4, 4)];
    let p = plan(&rect(0, 0, 4, 4), &displays);
    let part = vec![9u8; 25];
    let parts = vec![Some(part)];
    let buffer = compose(4, 4, &p, &parts).unwrap();
    for px in 0..16usize {
        for c in 0..4usize {
            let got = buffer.pixels[px * 4 + c];
            if px < 6 {
                if c == 3 {
                    assert_eq!(got, 255);
                } else {
                    assert_eq!(got, 9);
                }
            } else {
                assert_eq!(got, 0);
            }
        }
    }
}

#[test]
fn zero_area_capture_never_reaches_the_platform() {
    // The full capture entry point answers a zero-area selection before
    // any display is enumerated or captured, so this runs the same on a
    // headless machine as anywhere else.
    let r = rect(100, 100, 0, 0);
    assert_eq!(
        region_capture::platform::capture(&r),
        Err(CaptureError::EmptyRegion)
    );
}
