//! The verified presentation pipeline: the off-screen buffer, the window
//! surface with its visible pixel plane, and the presentation session.

use crate::damage::{
    apply_damage, blit_rect, in_rect, lemma_blit_full, lemma_coords_to_index,
    lemma_index_to_coords, rects_in_range, zero_seq,
};
use crate::{dims_in_range, Rect, SoftBufferError, WindowHandle};
use vstd::pervasive::unreached;
use vstd::prelude::*;

verus! {

/// A pixel plane of the given dimensions fits the machine's address space.
pub open spec fn fits_usize(width: u32, height: u32) -> bool {
    width * height <= usize::MAX
}

/// Runtime check matching [`fits_usize`].
fn check_fits_usize(width: u32, height: u32) -> (r: bool)
    ensures
        r == fits_usize(width, height),
{
    proof {
        assert((width as int) * (height as int) <= 0xffff_ffff * 0xffff_ffff)
            by (nonlinear_arith)
            requires
                0 <= width as int <= 0xffff_ffff,
                0 <= height as int <= 0xffff_ffff,
        ;
    }
    (width as u64) * (height as u64) <= (usize::MAX as u64)
}

/// Fills a vector with `len` zeroed pixels.
fn zero_vec(len: usize) -> (r: Vec<u32>)
    ensures
        r@ == zero_seq(len as int),
{
    let mut v: Vec<u32> = Vec::new();
    while v.len() < len
        invariant
            v@.len() <= len,
            forall|i: int| 0 <= i < v@.len() ==> v@[i] == 0u32,
        decreases len - v@.len(),
    {
        v.push(0u32);
    }
    proof {
        assert(v@ =~= zero_seq(len as int));
    }
    v
}

/// Copies a pixel plane.
fn copy_vec(v: &Vec<u32>) -> (r: Vec<u32>)
    ensures
        r@ == v@,
{
    let mut out: Vec<u32> = Vec::new();
    let mut i: usize = 0;
    while i < v.len()
        invariant
            i <= v@.len(),
            out@ == v@.subrange(0, i as int),
        decreases v@.len() - i,
    {
        out.push(v[i]);
        proof {
            assert(out@ =~= v@.subrange(0, (i + 1) as int));
        }
        i += 1;
    }
    proof {
        assert(out@ =~= v@);
    }
    out
}

/// One rectangular block copy from the buffer's pixel store onto the visible
/// plane, clipped to the plane's bounds: a direct copy at identical
/// coordinates, no scaling and no filtering.
fn blit_rect_exec(screen: &mut Vec<u32>, pixels: &Vec<u32>, width: u32, height: u32, rect: Rect)
    requires
        dims_in_range(width, height),
        fits_usize(width, height),
        old(screen)@.len() == width * height,
        pixels@.len() == width * height,
        crate::rect_in_range(rect),
    ensures
        final(screen)@ == blit_rect(old(screen)@, pixels@, width as int, rect),
{
    let w = width;
    let h = height;
    let x_end: u32 = if rect.x + rect.width < w {
        rect.x + rect.width
    } else {
        w
    };
    let y_end: u32 = if rect.y + rect.height < h {
        rect.y + rect.height
    } else {
        h
    };
    let x_start: u32 = if rect.x < x_end {
        rect.x
    } else {
        x_end
    };
    let mut y: u32 = if rect.y < y_end {
        rect.y
    } else {
        y_end
    };
    while y < y_end
        invariant
            dims_in_range(w, h),
            fits_usize(w, h),
            pixels@.len() == w * h,
            crate::rect_in_range(rect),
            x_end as int == if rect.x + rect.width < w {
                rect.x + rect.width
            } else {
                w as int
            },
            y_end as int == if rect.y + rect.height < h {
                rect.y + rect.height
            } else {
                h as int
            },
            x_start as int == if rect.x < x_end {
                rect.x as int
            } else {
                x_end as int
            },
            y <= y_end,
            rect.y <= y || y == y_end,
            screen@.len() == w * h,
            forall|i: int|
                0 <= i < w * h ==> #[trigger] screen@[i] == if in_rect(
                    rect,
                    i % (w as int),
                    i / (w as int),
                ) && i / (w as int) < y {
                    pixels@[i]
                } else {
                    old(screen)@[i]
                },
        decreases y_end - y,
    {
        let mut x: u32 = x_start;
        while x < x_end
            invariant
                dims_in_range(w, h),
                fits_usize(w, h),
                pixels@.len() == w * h,
                crate::rect_in_range(rect),
                x_end as int == if rect.x + rect.width < w {
                    rect.x + rect.width
                } else {
                    w as int
                },
                y_end as int == if rect.y + rect.height < h {
                    rect.y + rect.height
                } else {
                    h as int
                },
                y < y_end,
                rect.y <= y,
                x <= x_end,
                rect.x <= x || x == x_end,
                screen@.len() == w * h,
                forall|i: int|
                    0 <= i < w * h ==> #[trigger] screen@[i] == if in_rect(
                        rect,
                        i % (w as int),
                        i / (w as int),
                    ) && (i / (w as int) < y || (i / (w as int) == y && i % (w as int) < x)) {
                        pixels@[i]
                    } else {
                        old(screen)@[i]
                    },
            decreases x_end - x,
        {
            proof {
                lemma_coords_to_index(x as int, y as int, w as int, h as int);
            }
            let idx: usize = (y as usize) * (w as usize) + (x as usize);
            let ghost snap = screen@;
            let v: u32 = pixels[idx];
            screen[idx] = v;
            proof {
                assert forall|i: int| 0 <= i < w * h implies #[trigger] screen@[i] == if in_rect(
                    rect,
                    i % (w as int),
                    i / (w as int),
                ) && (i / (w as int) < y || (i / (w as int) == y && i % (w as int) < x + 1)) {
                    pixels@[i]
                } else {
                    old(screen)@[i]
                } by {
                    lemma_index_to_coords(i, w as int, h as int);
                    if i != idx {
                        assert(screen@[i] == snap[i]);
                    }
                }
            }
            x += 1;
        }
        proof {
            assert forall|i: int| 0 <= i < w * h implies #[trigger] screen@[i] == if in_rect(
                rect,
                i % (w as int),
                i / (w as int),
            ) && i / (w as int) < y + 1 {
                pixels@[i]
            } else {
                old(screen)@[i]
            } by {
                lemma_index_to_coords(i, w as int, h as int);
            }
        }
        y += 1;
    }
    proof {
        let b = blit_rect(old(screen)@, pixels@, w as int, rect);
        assert forall|i: int| 0 <= i < w * h implies #[trigger] screen@[i] == b[i] by {
            lemma_index_to_coords(i, w as int, h as int);
        }
        assert(screen@ =~= b);
    }
}

/// The off-screen buffer: strictly positive dimensions within the signed
/// 32-bit coordinate domain, a flat row-major store of `width * height`
/// 32-bit BGRX pixels, and a flag that records whether this exact buffer
/// instance has ever been copied to the window.
pub struct Buffer {
    pub width: u32,
    pub height: u32,
    pub pixels: Vec<u32>,
    pub presented: bool,
}

impl Buffer {
    /// Well-formed: valid dimensions and exactly `width * height` pixels.
    pub open spec fn wf(self) -> bool {
        &&& dims_in_range(self.width, self.height)
        &&& fits_usize(self.width, self.height)
        &&& self.pixels@.len() == self.width * self.height
    }

    /// A fresh off-screen buffer: zero-filled and never presented.
    fn new(width: u32, height: u32) -> (r: Buffer)
        requires
            dims_in_range(width, height),
            fits_usize(width, height),
        ensures
            r.wf(),
            r.width == width,
            r.height == height,
            r.pixels@ == zero_seq(width * height),
            !r.presented,
    {
        Buffer {
            width,
            height,
            pixels: zero_vec((width as usize) * (height as usize)),
            presented: false,
        }
    }
}

/// The window surface: the native window reference (never owned), at most
/// one current off-screen buffer, and the window's visible pixel plane,
/// which presentation copies into and read-back reads from.
pub struct Win32Impl {
    pub window: WindowHandle,
    pub buffer: Option<Buffer>,
    pub screen: Vec<u32>,
}

/// The buffer exists and has exactly the given dimensions.
pub open spec fn same_dims(buffer: Option<Buffer>, width: u32, height: u32) -> bool {
    buffer is Some && buffer->Some_0.width == width && buffer->Some_0.height == height
}

/// What `Win32Impl::new` returns: the null reference is rejected before
/// anything else happens; any other reference yields a surface with no
/// buffer yet.
pub open spec fn new_post(handle: WindowHandle, r: Result<Win32Impl, SoftBufferError>) -> bool {
    if handle.hwnd == 0 {
        r == Err::<Win32Impl, SoftBufferError>(SoftBufferError::IncompleteWindowHandle)
    } else {
        &&& r is Ok
        &&& r->Ok_0.wf()
        &&& r->Ok_0.window == handle
        &&& r->Ok_0.buffer is None
    }
}

/// What `Win32Impl::resize` does: dimensions outside the valid domain (or a
/// pixel count beyond the machine's address space) are rejected and nothing
/// changes; a buffer of exactly these dimensions already in place makes the
/// call a no-op; otherwise the old buffer is discarded and a fresh zeroed,
/// unpresented buffer of the requested size takes its place.
pub open spec fn resize_post(
    pre: Win32Impl,
    post: Win32Impl,
    width: u32,
    height: u32,
    r: Result<(), SoftBufferError>,
) -> bool {
    if !(dims_in_range(width, height) && fits_usize(width, height)) {
        &&& post == pre
        &&& r == Err::<(), SoftBufferError>(SoftBufferError::SizeOutOfRange { width, height })
    } else if same_dims(pre.buffer, width, height) {
        &&& post == pre
        &&& r == Ok::<(), SoftBufferError>(())
    } else {
        &&& r == Ok::<(), SoftBufferError>(())
        &&& post.window == pre.window
        &&& post.buffer is Some
        &&& post.buffer->Some_0.width == width
        &&& post.buffer->Some_0.height == height
        &&& post.buffer->Some_0.pixels@ == zero_seq(width * height)
        &&& !post.buffer->Some_0.presented
        &&& post.screen@ == zero_seq(width * height)
    }
}

/// What a presentation with a damage list does. The rectangles are processed
/// in order and each copy commits as it runs: when every rectangle lies in
/// the signed 32-bit domain, all of them are copied and the buffer is marked
/// presented; when one does not, the rectangles before the first offending
/// one are already copied, that rectangle is returned in the error, and the
/// presented flag is left as it was. The buffer's own contents never change.
pub open spec fn present_damage_post(
    pre: Win32Impl,
    post: Win32Impl,
    damage: Seq<Rect>,
    r: Result<(), SoftBufferError>,
) -> bool {
    let b = pre.buffer->Some_0;
    &&& post.window == pre.window
    &&& post.buffer is Some
    &&& post.buffer->Some_0.width == b.width
    &&& post.buffer->Some_0.height == b.height
    &&& post.buffer->Some_0.pixels@ == b.pixels@
    &&& if rects_in_range(damage, damage.len() as int) {
        &&& r == Ok::<(), SoftBufferError>(())
        &&& post.buffer->Some_0.presented
        &&& post.screen@ == apply_damage(
            pre.screen@,
            b.pixels@,
            b.width as int,
            damage,
            damage.len() as int,
        )
    } else {
        exists|k: int|
            {
                &&& 0 <= k < damage.len()
                &&& !crate::rect_in_range(#[trigger] damage[k])
                &&& rects_in_range(damage, k)
                &&& r == Err::<(), SoftBufferError>(
                    SoftBufferError::DamageOutOfRange { rect: damage[k] },
                )
                &&& post.buffer->Some_0.presented == b.presented
                &&& post.screen@ == apply_damage(pre.screen@, b.pixels@, b.width as int, damage, k)
            }
    }
}

/// What a whole-buffer presentation does: it always succeeds, the visible
/// plane becomes a bit-for-bit copy of the buffer's pixels, and the buffer is
/// marked presented.
pub open spec fn present_post(pre: Win32Impl, post: Win32Impl, r: Result<(), SoftBufferError>) -> bool {
    let b = pre.buffer->Some_0;
    &&& r == Ok::<(), SoftBufferError>(())
    &&& post.window == pre.window
    &&& post.buffer is Some
    &&& post.buffer->Some_0.width == b.width
    &&& post.buffer->Some_0.height == b.height
    &&& post.buffer->Some_0.pixels@ == b.pixels@
    &&& post.buffer->Some_0.presented
    &&& post.screen@ == b.pixels@
}

impl Win32Impl {
    /// Copies each damage rectangle in order from the off-screen buffer to
    /// the visible plane, as [`present_damage_post`] states.
    fn present_damage(&mut self, damage: &Vec<Rect>) -> (r: Result<(), SoftBufferError>)
        requires
            old(self).wf(),
            old(self).buffer is Some,
        ensures
            final(self).wf(),
            present_damage_post(*old(self), *final(self), damage@, r),
    {
        let mut taken: Option<Buffer> = None;
        core::mem::swap(&mut taken, &mut self.buffer);
        let mut b = taken.unwrap();
        let mut i: usize = 0;
        while i < damage.len()
            invariant
                b == old(self).buffer->Some_0,
                b.wf(),
                i <= damage@.len(),
                rects_in_range(damage@, i as int),
                self.window == old(self).window,
                self.window.hwnd != 0,
                self.buffer is None,
                self.screen@.len() == b.pixels@.len(),
                self.screen@ == apply_damage(
                    old(self).screen@,
                    b.pixels@,
                    b.width as int,
                    damage@,
                    i as int,
                ),
            decreases damage@.len() - i,
        {
            let rect = damage[i];
            if !crate::check_rect(&rect) {
                self.buffer = Some(b);
                return Err(SoftBufferError::DamageOutOfRange { rect });
            }
            blit_rect_exec(&mut self.screen, &b.pixels, b.width, b.height, rect);
            i += 1;
        }
        b.presented = true;
        self.buffer = Some(b);
        Ok(())
    }

    /// Well-formed: a non-null window reference, a well-formed buffer if one
    /// exists, and a visible plane of exactly the buffer's pixel count.
    pub open spec fn wf(self) -> bool {
        &&& self.window.hwnd != 0
        &&& match self.buffer {
            Some(b) => b.wf() && self.screen@.len() == b.pixels@.len(),
            None => self.screen@.len() == 0,
        }
    }

    /// Creates a surface for the given window reference. A null reference is
    /// rejected with `IncompleteWindowHandle` before any resource is touched;
    /// otherwise the surface starts with no buffer.
    pub fn new(handle: WindowHandle) -> (r: Result<Win32Impl, SoftBufferError>)
        ensures
            new_post(handle, r),
    {
        if handle.hwnd == 0 {
            return Err(SoftBufferError::IncompleteWindowHandle);
        }
        Ok(Win32Impl { window: handle, buffer: None, screen: Vec::new() })
    }

    /// Resizes the off-screen buffer as [`resize_post`] states. Prior pixel
    /// contents are discarded, not migrated, whenever a new buffer is made.
    pub fn resize(&mut self, width: u32, height: u32) -> (r: Result<(), SoftBufferError>)
        requires
            old(self).wf(),
        ensures
            final(self).wf(),
            resize_post(*old(self), *final(self), width, height, r),
    {
        if !crate::check_dims(width, height) {
            return Err(SoftBufferError::SizeOutOfRange { width, height });
        }
        if !check_fits_usize(width, height) {
            return Err(SoftBufferError::SizeOutOfRange { width, height });
        }
        match &self.buffer {
            Some(b) => {
                if b.width == width && b.height == height {
                    return Ok(());
                }
            },
            None => {},
        }
        let buf = Buffer::new(width, height);
        let scr = zero_vec((width as usize) * (height as usize));
        self.buffer = Some(buf);
        self.screen = scr;
        Ok(())
    }

    /// Whether a successful resize has already installed a buffer.
    pub fn has_buffer(&self) -> (r: bool)
        ensures
            r == (self.buffer is Some),
    {
        self.buffer.is_some()
    }

    /// Opens the presentation session. Calling this before any successful
    /// resize is a caller-contract violation, excluded by precondition.
    pub fn buffer_mut(self) -> (r: Result<BufferImpl, SoftBufferError>)
        requires
            self.wf(),
            self.buffer is Some,
        ensures
            r is Ok,
            r->Ok_0.surface == self,
    {
        Ok(BufferImpl { surface: self })
    }

    /// Reads back the window's currently visible contents as a dense pixel
    /// array: a pure read that changes nothing.
    pub fn fetch(&mut self) -> (r: Result<Vec<u32>, SoftBufferError>)
        requires
            old(self).wf(),
            old(self).buffer is Some,
        ensures
            *final(self) == *old(self),
            r is Ok,
            r->Ok_0@ == old(self).screen@,
    {
        Ok(copy_vec(&self.screen))
    }
}

/// The presentation session: an exclusive view over a window surface, opened
/// by [`Win32Impl::buffer_mut`] and closed by [`BufferImpl::finish`]. While
/// the session is open it owns the surface, so no resize, read-back or second
/// session can interleave with it.
pub struct BufferImpl {
    pub surface: Win32Impl,
}

/// The buffer's freshness hint: 1 when this exact buffer instance has been
/// presented before (so its pre-edit contents are already on screen), else 0.
pub open spec fn age_of(s: Win32Impl) -> u8 {
    if s.buffer is Some && s.buffer->Some_0.presented {
        1u8
    } else {
        0u8
    }
}

impl BufferImpl {
    /// Well-formed: the surface is well-formed and holds a buffer.
    pub open spec fn wf(self) -> bool {
        self.surface.wf() && self.surface.buffer is Some
    }

    /// The flat pixel store of the bound buffer, `width * height` values.
    pub fn pixels(&self) -> (r: &Vec<u32>)
        requires
            self.wf(),
        ensures
            r@ == self.surface.buffer->Some_0.pixels@,
    {
        match &self.surface.buffer {
            Some(b) => &b.pixels,
            None => unreached(),
        }
    }

    /// Mutable access to the flat pixel store; everything else about the
    /// surface stays as it was.
    pub fn pixels_mut(&mut self) -> (r: &mut Vec<u32>)
        requires
            old(self).wf(),
        ensures
            *r == old(self).surface.buffer->Some_0.pixels,
            final(self).surface.window == old(self).surface.window,
            final(self).surface.screen == old(self).surface.screen,
            final(self).surface.buffer is Some,
            final(self).surface.buffer->Some_0.width == old(self).surface.buffer->Some_0.width,
            final(self).surface.buffer->Some_0.height == old(self).surface.buffer->Some_0.height,
            final(self).surface.buffer->Some_0.presented == old(
                self,
            ).surface.buffer->Some_0.presented,
            final(self).surface.buffer->Some_0.pixels == *final(r),
    {
        match &mut self.surface.buffer {
            Some(b) => &mut b.pixels,
            None => unreached(),
        }
    }

    /// The freshness hint of the bound buffer.
    pub fn age(&self) -> (r: u8)
        ensures
            r == age_of(self.surface),
    {
        match &self.surface.buffer {
            Some(b) => {
                if b.presented {
                    1
                } else {
                    0
                }
            },
            None => 0,
        }
    }

    /// Presents the whole buffer: synthesizes one damage rectangle covering
    /// every pixel and copies it, leaving the visible plane a bit-for-bit
    /// copy of the buffer.
    pub fn present(&mut self) -> (r: Result<(), SoftBufferError>)
        requires
            old(self).wf(),
        ensures
            final(self).wf(),
            present_post(old(self).surface, final(self).surface, r),
    {
        let (width, height) = match &self.surface.buffer {
            Some(b) => (b.width, b.height),
            None => unreached(),
        };
        let mut whole: Vec<Rect> = Vec::new();
        whole.push(Rect { x: 0, y: 0, width, height });
        let r = self.surface.present_damage(&whole);
        proof {
            let pre = old(self).surface;
            let b = pre.buffer->Some_0;
            let full = Rect { x: 0, y: 0, width: b.width, height: b.height };
            assert(whole@[0] == full);
            assert(rects_in_range(whole@, 1));
            assert(apply_damage(pre.screen@, b.pixels@, b.width as int, whole@, 0)
                == pre.screen@);
            lemma_blit_full(pre.screen@, b.pixels@, b.width as int, b.height as int, full);
        }
        r
    }

    /// Presents the given damage rectangles, as [`present_damage_post`]
    /// states: copies committed in order, the whole call failing on the
    /// first rectangle outside the signed 32-bit domain.
    pub fn present_with_damage(&mut self, damage: &Vec<Rect>) -> (r: Result<(), SoftBufferError>)
        requires
            old(self).wf(),
        ensures
            final(self).wf(),
            present_damage_post(old(self).surface, final(self).surface, damage@, r),
    {
        self.surface.present_damage(damage)
    }

    /// Releases the session and hands the surface back.
    pub fn finish(self) -> (r: Win32Impl)
        ensures
            r == self.surface,
    {
        self.surface
    }
}

} // verus!
