//! Laws of the presentation pipeline, stated and proved over the same spec
//! functions that the executable contracts use.

use crate::damage::{rects_in_range, zero_seq};
use crate::win32::{
    age_of, fits_usize, new_post, present_damage_post, present_post, resize_post, same_dims,
    Win32Impl,
};
use crate::{dims_in_range, Rect, SoftBufferError, WindowHandle};
use vstd::prelude::*;

verus! {

/// After any successful resize to valid dimensions whose pixel count the
/// machine can address, the buffer holds exactly `width * height` pixels.
pub proof fn lemma_resize_pixel_count(
    pre: Win32Impl,
    post: Win32Impl,
    width: u32,
    height: u32,
    r: Result<(), SoftBufferError>,
)
    requires
        pre.wf(),
        resize_post(pre, post, width, height, r),
        dims_in_range(width, height),
        fits_usize(width, height),
    ensures
        r == Ok::<(), SoftBufferError>(()),
        post.buffer is Some,
        post.buffer->Some_0.pixels@.len() == width * height,
{
}

/// Resizing twice to identical dimensions leaves the surface, its buffer
/// instance and its contents exactly as the first resize left them: the
/// second call does not reallocate.
pub proof fn lemma_resize_idempotent(
    s1: Win32Impl,
    s2: Win32Impl,
    s3: Win32Impl,
    width: u32,
    height: u32,
    r1: Result<(), SoftBufferError>,
    r2: Result<(), SoftBufferError>,
)
    requires
        s1.wf(),
        resize_post(s1, s2, width, height, r1),
        r1 == Ok::<(), SoftBufferError>(()),
        resize_post(s2, s3, width, height, r2),
    ensures
        r2 == Ok::<(), SoftBufferError>(()),
        s3 == s2,
{
}

/// A resize that installs a new buffer discards prior contents: whatever the
/// old buffer held, the new one is zero-filled and unpresented.
pub proof fn lemma_resize_discards(
    pre: Win32Impl,
    post: Win32Impl,
    width: u32,
    height: u32,
    r: Result<(), SoftBufferError>,
)
    requires
        pre.wf(),
        resize_post(pre, post, width, height, r),
        dims_in_range(width, height),
        fits_usize(width, height),
        !same_dims(pre.buffer, width, height),
    ensures
        r == Ok::<(), SoftBufferError>(()),
        post.buffer is Some,
        post.buffer->Some_0.pixels@ == zero_seq(width * height),
        !post.buffer->Some_0.presented,
{
}

/// The freshness hint across one buffer lifecycle: 0 right after a resize
/// that installed a new buffer, 1 after any successful present, and 0 again
/// after a further resize that installed a new buffer. (A resize to the
/// dimensions the buffer already has is a no-op and keeps the hint.)
pub proof fn lemma_age_lifecycle(
    s1: Win32Impl,
    s2: Win32Impl,
    s3: Win32Impl,
    s4: Win32Impl,
    w1: u32,
    h1: u32,
    damage: Seq<Rect>,
    w2: u32,
    h2: u32,
    r1: Result<(), SoftBufferError>,
    r2: Result<(), SoftBufferError>,
    r3: Result<(), SoftBufferError>,
)
    requires
        s1.wf(),
        resize_post(s1, s2, w1, h1, r1),
        r1 == Ok::<(), SoftBufferError>(()),
        !same_dims(s1.buffer, w1, h1),
        present_damage_post(s2, s3, damage, r2),
        rects_in_range(damage, damage.len() as int),
        resize_post(s3, s4, w2, h2, r3),
        r3 == Ok::<(), SoftBufferError>(()),
        !same_dims(s3.buffer, w2, h2),
    ensures
        age_of(s2) == 0,
        age_of(s3) == 1,
        age_of(s4) == 0,
{
}

/// The round trip: a buffer holding pattern `p`, presented whole and then
/// read back from the window, yields `p` bit for bit, with no transform.
pub proof fn lemma_present_fetch_round_trip(
    s1: Win32Impl,
    s2: Win32Impl,
    fetched: Seq<u32>,
    p: Seq<u32>,
    r: Result<(), SoftBufferError>,
)
    requires
        s1.buffer is Some,
        s1.buffer->Some_0.pixels@ == p,
        present_post(s1, s2, r),
        fetched == s2.screen@,
    ensures
        fetched == p,
{
}

/// A whole-buffer present is exactly a presentation whose damage list is the
/// single rectangle covering every pixel: the plane becomes a bit-for-bit
/// copy of the buffer.
pub proof fn lemma_whole_rect_damage_is_present(
    s1: Win32Impl,
    s2: Win32Impl,
    whole: Rect,
    r: Result<(), SoftBufferError>,
)
    requires
        s1.wf(),
        s1.buffer is Some,
        whole == (Rect {
            x: 0,
            y: 0,
            width: s1.buffer->Some_0.width,
            height: s1.buffer->Some_0.height,
        }),
        present_damage_post(s1, s2, seq![whole], r),
    ensures
        present_post(s1, s2, r),
{
    let b = s1.buffer->Some_0;
    assert(rects_in_range(seq![whole], 1)) by {
        assert(seq![whole][0] == whole);
    }
    assert(crate::damage::apply_damage(s1.screen@, b.pixels@, b.width as int, seq![whole], 0)
        == s1.screen@);
    assert(crate::damage::apply_damage(s1.screen@, b.pixels@, b.width as int, seq![whole], 1)
        == crate::damage::blit_rect(s1.screen@, b.pixels@, b.width as int, whole));
    crate::damage::lemma_blit_full(s1.screen@, b.pixels@, b.width as int, b.height as int, whole);
}

/// A damage list holding an out-of-range rectangle fails with the damage
/// error, and a buffer that was never presented stays unpresented: its age
/// remains 0.
pub proof fn lemma_damage_error_keeps_age(
    s1: Win32Impl,
    s2: Win32Impl,
    damage: Seq<Rect>,
    r: Result<(), SoftBufferError>,
)
    requires
        s1.buffer is Some,
        present_damage_post(s1, s2, damage, r),
        !rects_in_range(damage, damage.len() as int),
        age_of(s1) == 0,
    ensures
        r is Err,
        r->Err_0 is DamageOutOfRange,
        age_of(s2) == 0,
{
}

/// A zero width or height is rejected with the size error and nothing is
/// allocated or changed.
pub proof fn lemma_resize_rejects_zero(
    pre: Win32Impl,
    post: Win32Impl,
    width: u32,
    height: u32,
    r: Result<(), SoftBufferError>,
)
    requires
        resize_post(pre, post, width, height, r),
        width == 0 || height == 0,
    ensures
        r == Err::<(), SoftBufferError>(SoftBufferError::SizeOutOfRange { width, height }),
        post == pre,
{
}

/// A null window reference is rejected with the incomplete-handle error
/// before anything else can happen.
pub proof fn lemma_null_handle_rejected(r: Result<Win32Impl, SoftBufferError>)
    requires
        new_post(WindowHandle { hwnd: 0 }, r),
    ensures
        r == Err::<Win32Impl, SoftBufferError>(SoftBufferError::IncompleteWindowHandle),
{
}

} // verus!
