use softframe::frame::{update_plan, FrameStep, SessionState, QUAD_VERTEX_COUNT};
use softframe::surface::{PixelSurface, SurfaceError};

fn index_of(width: u32, height: u32, x: u32, y: u32) -> usize {
    (x + (height - y - 1) * width) as usize
}

#[test]
fn construction_starts_black_and_clean() {
    let s = PixelSurface::new(4, 3, 8, 8).unwrap();
    assert_eq!(s.resolution_x(), 4);
    assert_eq!(s.resolution_y(), 3);
    assert!(!s.is_dirty());
    assert_eq!(s.pixels().len(), 12);
    assert!(s.pixels().iter().all(|&c| c == 0));
}

#[test]
fn construction_allows_resolution_equal_to_window() {
    assert!(PixelSurface::new(8, 8, 8, 8).is_ok());
}

#[test]
fn construction_rejects_resolution_wider_than_window() {
    let r = PixelSurface::new(10, 4, 5, 8);
    assert_eq!(r.err(), Some(SurfaceError::InvalidResolution));
}

#[test]
fn construction_rejects_resolution_taller_than_window() {
    let r = PixelSurface::new(4, 10, 8, 5);
    assert_eq!(r.err(), Some(SurfaceError::InvalidResolution));
}

#[test]
fn put_pixel_round_trips_and_touches_one_cell() {
    let mut s = PixelSurface::new(4, 4, 8, 8).unwrap();
    let before = s.pixels().clone();
    assert!(s.put_pixel(2, 1, 0xDEADBEEF).is_ok());
    let idx = index_of(4, 4, 2, 1);
    assert_eq!(s.pixels()[idx], 0xDEADBEEF);
    for i in 0..before.len() {
        if i != idx {
            assert_eq!(s.pixels()[i], before[i]);
        }
    }
    assert!(s.is_dirty());
}

#[test]
fn coordinate_mapping_puts_logical_origin_in_last_row() {
    let mut s = PixelSurface::new(5, 3, 8, 8).unwrap();
    s.put_pixel(0, 2, 0x11).unwrap();
    assert_eq!(s.pixels()[0], 0x11);
    s.put_pixel(0, 0, 0x22).unwrap();
    assert_eq!(s.pixels()[(3 - 1) * 5], 0x22);
}

#[test]
fn put_pixel_out_of_bounds_fails_without_mutation() {
    let mut s = PixelSurface::new(4, 4, 8, 8).unwrap();
    s.put_pixel(1, 1, 0x33).unwrap();
    s.flush_if_dirty();
    let before = s.pixels().clone();

    assert_eq!(s.put_pixel(4, 0, 0x44), Err(SurfaceError::OutOfBounds));
    assert_eq!(s.put_pixel(0, 4, 0x44), Err(SurfaceError::OutOfBounds));
    assert_eq!(s.pixels(), &before);
    assert!(!s.is_dirty());
}

#[test]
fn put_rect_fills_exactly_the_rectangle() {
    let mut s = PixelSurface::new(4, 4, 8, 8).unwrap();
    s.put_rect(1, 1, 2, 2, 0x55);
    for x in 0..4u32 {
        for y in 0..4u32 {
            let expected = if (1..3).contains(&x) && (1..3).contains(&y) { 0x55 } else { 0 };
            assert_eq!(s.pixels()[index_of(4, 4, x, y)], expected);
        }
    }
    assert!(s.is_dirty());
}

#[test]
fn put_rect_clamps_overflowing_extent() {
    let mut s = PixelSurface::new(4, 4, 8, 8).unwrap();
    s.put_rect(2, 3, 100, 100, 0x66);
    for x in 0..4u32 {
        for y in 0..4u32 {
            let expected = if x >= 2 && y >= 3 { 0x66 } else { 0 };
            assert_eq!(s.pixels()[index_of(4, 4, x, y)], expected);
        }
    }
    assert_eq!(s.pixels().len(), 16);
}

#[test]
fn put_rect_with_origin_outside_is_a_no_op_but_marks_dirty() {
    let mut s = PixelSurface::new(4, 4, 8, 8).unwrap();
    let before = s.pixels().clone();
    s.put_rect(4, 0, 2, 2, 0x77);
    assert_eq!(s.pixels(), &before);
    assert!(s.is_dirty());

    let mut t = PixelSurface::new(4, 4, 8, 8).unwrap();
    t.put_rect(0, 4, 2, 2, 0x77);
    assert_eq!(t.pixels(), &before);
    assert!(t.is_dirty());
}

#[test]
fn writes_coalesce_into_one_upload_and_flush_clears() {
    let mut s = PixelSurface::new(4, 4, 8, 8).unwrap();
    s.put_pixel(0, 0, 1).unwrap();
    s.put_rect(1, 1, 2, 2, 2);
    assert!(s.is_dirty());

    assert!(s.flush_if_dirty());
    assert!(!s.is_dirty());
    assert!(!s.flush_if_dirty());

    let steps = update_plan(&mut s);
    assert!(!steps.contains(&FrameStep::UploadSurface));
}

#[test]
fn frame_after_write_uploads_once_before_drawing() {
    let mut s = PixelSurface::new(4, 4, 8, 8).unwrap();
    s.put_rect(0, 0, 4, 4, 0xFFFFFFFF);
    let steps = update_plan(&mut s);

    assert_eq!(
        steps,
        vec![
            FrameStep::SwapBuffers,
            FrameStep::PollEvents,
            FrameStep::ClearColor,
            FrameStep::UploadSurface,
            FrameStep::DrawQuad(QUAD_VERTEX_COUNT),
        ]
    );
    assert_eq!(QUAD_VERTEX_COUNT, 6);
    assert!(!s.is_dirty());
    assert!(s.pixels().iter().all(|&c| c == 0xFFFFFFFF));

    let steps2 = update_plan(&mut s);
    assert_eq!(
        steps2,
        vec![
            FrameStep::SwapBuffers,
            FrameStep::PollEvents,
            FrameStep::ClearColor,
            FrameStep::DrawQuad(QUAD_VERTEX_COUNT),
        ]
    );
}

#[test]
fn zero_sized_surface_is_inert() {
    let mut s = PixelSurface::new(0, 0, 8, 8).unwrap();
    assert_eq!(s.pixels().len(), 0);
    s.put_rect(0, 0, 5, 5, 0x88);
    assert_eq!(s.pixels().len(), 0);
    assert!(s.is_dirty());
    assert_eq!(s.put_pixel(0, 0, 0x88), Err(SurfaceError::OutOfBounds));
}

#[test]
fn session_closes_once_and_stays_closed() {
    let mut session = SessionState::new();
    assert!(!session.is_closed());
    session.request_close();
    assert!(session.is_closed());
    session.request_close();
    assert!(session.is_closed());
}
