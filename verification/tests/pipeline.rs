use softbuffer_win32::win32::{BufferImpl, Win32Impl};
use softbuffer_win32::{Rect, SoftBufferError, WindowHandle};

fn surface(hwnd: isize) -> Win32Impl {
    Win32Impl::new(WindowHandle { hwnd }).expect("non-null handle must be accepted")
}

fn session(s: Win32Impl) -> BufferImpl {
    s.buffer_mut().expect("session must open once a buffer exists")
}

#[test]
fn null_handle_rejected() {
    let r = Win32Impl::new(WindowHandle { hwnd: 0 });
    assert_eq!(r.err().unwrap(), SoftBufferError::IncompleteWindowHandle);
}

#[test]
fn nonnull_handle_accepted() {
    let s = surface(7);
    assert!(!s.has_buffer());
}

#[test]
fn resize_zero_width_rejected() {
    let mut s = surface(7);
    let r = s.resize(0, 5);
    assert_eq!(
        r.err().unwrap(),
        SoftBufferError::SizeOutOfRange { width: 0, height: 5 }
    );
    assert!(!s.has_buffer());
}

#[test]
fn resize_zero_height_rejected() {
    let mut s = surface(7);
    let r = s.resize(5, 0);
    assert_eq!(
        r.err().unwrap(),
        SoftBufferError::SizeOutOfRange { width: 5, height: 0 }
    );
    assert!(!s.has_buffer());
}

#[test]
fn resize_above_coordinate_domain_rejected() {
    let mut s = surface(7);
    let r = s.resize(0x8000_0000, 2);
    assert_eq!(
        r.err().unwrap(),
        SoftBufferError::SizeOutOfRange {
            width: 0x8000_0000,
            height: 2
        }
    );
    assert!(!s.has_buffer());
}

#[test]
fn resize_allocates_exact_pixel_count() {
    let mut s = surface(7);
    s.resize(3, 2).unwrap();
    let mut sess = session(s);
    assert_eq!(sess.pixels().len(), 6);
    assert_eq!(sess.pixels_mut().len(), 6);
    assert!(sess.pixels().iter().all(|&p| p == 0));
}

#[test]
fn resize_same_dims_is_noop() {
    let mut s = surface(7);
    s.resize(2, 2).unwrap();
    let mut sess = session(s);
    let pm = sess.pixels_mut();
    pm[0] = 0xAABBCCDD;
    pm[3] = 0x11223344;
    let mut s = sess.finish();
    s.resize(2, 2).unwrap();
    let sess = session(s);
    assert_eq!(sess.pixels().as_slice(), &[0xAABBCCDD, 0, 0, 0x11223344]);
}

#[test]
fn resize_new_dims_discards_contents() {
    let mut s = surface(7);
    s.resize(2, 2).unwrap();
    let mut sess = session(s);
    for p in sess.pixels_mut().iter_mut() {
        *p = 0xFFFFFFFF;
    }
    let mut s = sess.finish();
    s.resize(3, 2).unwrap();
    let sess = session(s);
    assert_eq!(sess.pixels().as_slice(), &[0u32; 6]);
}

#[test]
fn age_lifecycle() {
    let mut s = surface(7);
    s.resize(2, 2).unwrap();
    let mut sess = session(s);
    assert_eq!(sess.age(), 0);
    sess.present().unwrap();
    assert_eq!(sess.age(), 1);
    let mut s = sess.finish();
    s.resize(4, 4).unwrap();
    let sess = session(s);
    assert_eq!(sess.age(), 0);
}

#[test]
fn same_dims_resize_keeps_age() {
    let mut s = surface(7);
    s.resize(2, 2).unwrap();
    let mut sess = session(s);
    sess.present().unwrap();
    let mut s = sess.finish();
    s.resize(2, 2).unwrap();
    let sess = session(s);
    assert_eq!(sess.age(), 1);
}

#[test]
fn present_fetch_round_trip() {
    let pattern: Vec<u32> = vec![0x00112233, 0x44556677, 0x8899AABB, 0xCCDDEEFF];
    let mut s = surface(7);
    s.resize(2, 2).unwrap();
    let mut sess = session(s);
    sess.pixels_mut().copy_from_slice(&pattern);
    sess.present().unwrap();
    let mut s = sess.finish();
    let fetched = s.fetch().unwrap();
    assert_eq!(fetched, pattern);
}

#[test]
fn fetch_before_present_sees_blank_plane() {
    let mut s = surface(7);
    s.resize(3, 2).unwrap();
    let fetched = s.fetch().unwrap();
    assert_eq!(fetched, vec![0u32; 6]);
}

#[test]
fn damage_rect_out_of_range_fails_and_keeps_age() {
    let mut s = surface(7);
    s.resize(2, 2).unwrap();
    let mut sess = session(s);
    let bad = Rect {
        x: 0x8000_0000,
        y: 0,
        width: 1,
        height: 1,
    };
    let r = sess.present_with_damage(&vec![bad]);
    assert_eq!(
        r.err().unwrap(),
        SoftBufferError::DamageOutOfRange { rect: bad }
    );
    assert_eq!(sess.age(), 0);
}

#[test]
fn damage_copies_only_the_rect() {
    let mut s = surface(7);
    s.resize(2, 2).unwrap();
    let mut sess = session(s);
    sess.pixels_mut().copy_from_slice(&[1, 2, 3, 4]);
    sess.present().unwrap();
    // repaint the buffer, then push only the top-left pixel to the window
    sess.pixels_mut().copy_from_slice(&[9, 8, 7, 6]);
    let one = Rect {
        x: 0,
        y: 0,
        width: 1,
        height: 1,
    };
    sess.present_with_damage(&vec![one]).unwrap();
    let mut s = sess.finish();
    let fetched = s.fetch().unwrap();
    assert_eq!(fetched, vec![9, 2, 3, 4]);
}

#[test]
fn damage_is_clipped_to_the_plane() {
    let mut s = surface(7);
    s.resize(2, 2).unwrap();
    let mut sess = session(s);
    sess.pixels_mut().copy_from_slice(&[5, 6, 7, 8]);
    let oversized = Rect {
        x: 1,
        y: 0,
        width: 100,
        height: 100,
    };
    sess.present_with_damage(&vec![oversized]).unwrap();
    let mut s = sess.finish();
    let fetched = s.fetch().unwrap();
    assert_eq!(fetched, vec![0, 6, 0, 8]);
}

#[test]
fn failing_rect_keeps_earlier_copies() {
    let mut s = surface(7);
    s.resize(2, 2).unwrap();
    let mut sess = session(s);
    sess.pixels_mut().copy_from_slice(&[1, 2, 3, 4]);
    let good = Rect {
        x: 0,
        y: 0,
        width: 1,
        height: 1,
    };
    let bad = Rect {
        x: 0,
        y: 0x9000_0000,
        width: 1,
        height: 1,
    };
    let r = sess.present_with_damage(&vec![good, bad]);
    assert_eq!(
        r.err().unwrap(),
        SoftBufferError::DamageOutOfRange { rect: bad }
    );
    assert_eq!(sess.age(), 0);
    let mut s = sess.finish();
    let fetched = s.fetch().unwrap();
    assert_eq!(fetched, vec![1, 0, 0, 0]);
}

#[test]
fn empty_damage_list_still_marks_presented() {
    let mut s = surface(7);
    s.resize(2, 2).unwrap();
    let mut sess = session(s);
    sess.present_with_damage(&Vec::new()).unwrap();
    assert_eq!(sess.age(), 1);
    let mut s = sess.finish();
    let fetched = s.fetch().unwrap();
    assert_eq!(fetched, vec![0u32; 4]);
}

#[test]
fn fetch_does_not_change_presented_state() {
    let mut s = surface(7);
    s.resize(2, 2).unwrap();
    let mut sess = session(s);
    sess.present().unwrap();
    let mut s = sess.finish();
    s.fetch().unwrap();
    let sess = session(s);
    assert_eq!(sess.age(), 1);
}
