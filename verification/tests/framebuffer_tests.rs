use chip8_core::FrameBuffer;

#[test]
fn new_buffer_is_blank() {
    let fb = FrameBuffer::new(64, 32);
    assert_eq!(fb.width(), 64);
    assert_eq!(fb.height(), 32);
    for y in 0..32 {
        for x in 0..64 {
            assert!(!fb.get(x, y));
        }
    }
}

#[test]
fn draw_then_redraw_restores_blank() {
    let mut fb = FrameBuffer::new(64, 32);
    fb.clear();
    let sprite = vec![0xFFu8];
    let first = fb.draw(0, 0, &sprite);
    assert!(!first);
    for x in 0..8 {
        assert!(fb.get(x, 0));
    }
    for x in 8..64 {
        assert!(!fb.get(x, 0));
    }
    let second = fb.draw(0, 0, &sprite);
    assert!(second);
    for x in 0..64 {
        assert!(!fb.get(x, 0));
    }
}

#[test]
fn collision_iff_previously_set_cell_hit() {
    let mut fb = FrameBuffer::new(64, 32);
    // 0x80 is a single pixel at the drawing origin.
    assert!(!fb.draw(3, 5, &vec![0x80u8]));
    // A pixel elsewhere in the same row does not collide.
    assert!(!fb.draw(4, 5, &vec![0x80u8]));
    // Hitting the set cell again collides and clears it.
    assert!(fb.draw(3, 5, &vec![0x80u8]));
    assert!(!fb.get(3, 5));
    assert!(fb.get(4, 5));
}

#[test]
fn draw_wraps_horizontally_per_row() {
    let mut fb = FrameBuffer::new(64, 32);
    // Drawing a full byte at x = 60 covers columns 60..63 and 0..3.
    assert!(!fb.draw(60, 2, &vec![0xFFu8]));
    for x in 60..64 {
        assert!(fb.get(x, 2));
    }
    for x in 0..4 {
        assert!(fb.get(x, 2));
    }
    for x in 4..60 {
        assert!(!fb.get(x, 2));
    }
}

#[test]
fn out_of_range_x_behaves_like_wrapped_x() {
    let mut a = FrameBuffer::new(64, 32);
    let mut b = FrameBuffer::new(64, 32);
    let sprite = vec![0xA5u8, 0x3Cu8];
    let ca = a.draw(64 + 9, 7, &sprite);
    let cb = b.draw(9, 7, &sprite);
    assert_eq!(ca, cb);
    for y in 0..32 {
        for x in 0..64 {
            assert_eq!(a.get(x, y), b.get(x, y));
        }
    }
}

#[test]
fn out_of_range_y_wraps_vertically() {
    let mut fb = FrameBuffer::new(64, 32);
    assert!(!fb.draw(0, 32 + 1, &vec![0x80u8]));
    assert!(fb.get(0, 1));
}

#[test]
fn clear_resets_every_cell() {
    let mut fb = FrameBuffer::new(64, 32);
    fb.draw(5, 5, &vec![0xFFu8, 0xFFu8]);
    fb.clear();
    for y in 0..32 {
        for x in 0..64 {
            assert!(!fb.get(x, y));
        }
    }
}
