pub mod color;
pub mod geometry;

use vstd::prelude::*;

pub use color::Color;
pub use geometry::{Align, Point, Rect};

verus! {

/// Declares `smithay_client_toolkit::shm::slot::Buffer`, the shared-memory
/// buffer that a frame is presented through. It is only carried, never read.
#[verifier::external_type_specification]
#[verifier::external_body]
pub struct ExBuffer(smithay_client_toolkit::shm::slot::Buffer);

/// Byte offset of pixel `p` in a canvas whose rows are `stride` pixels long.
pub open spec fn pixel_offset(p: Point, stride: int) -> int {
    4 * (p.x + p.y * stride)
}

/// A per-widget handle for one draw call: writes pixels of `canvas` inside
/// `rect` and records the regions it changed in `damage`.
pub struct DrawCtx<'ctx> {
    pub damage: &'ctx mut Vec<Rect>,
    pub buffer: &'ctx smithay_client_toolkit::shm::slot::Buffer,
    pub canvas: &'ctx mut [u8],
    pub rect: Rect,
    pub full_redraw: bool,
}

/// Writes the four bytes of `color` for pixel `pnt` of a canvas whose rows
/// are `rect.width()` pixels long; every other byte stays.
pub fn put_pixel(canvas: &mut [u8], rect: Rect, pnt: Point, color: Color)
    requires
        rect.wf(),
        rect.spec_contains(pnt),
        pnt.x + pnt.y * rect.spec_width() <= u32::MAX,
        pixel_offset(pnt, rect.spec_width()) + 4 <= old(canvas)@.len(),
    ensures
        ({
            let idx = pixel_offset(pnt, rect.spec_width());
            final(canvas)@ == old(canvas)@.take(idx) + color.spec_argb8888() + old(canvas)@.skip(
                idx + 4,
            )
        }),
{
    let width = rect.width();
    let len = canvas.len();
    proof {
        assert(pnt.y * width <= u32::MAX) by (nonlinear_arith)
            requires
                pnt.x + pnt.y * width <= u32::MAX,
        ;
        assert(pixel_offset(pnt, width as int) + 4 <= len);
    }
    let idx: usize = 4 * (pnt.x + pnt.y * width) as usize;
    let bytes = color.argb8888();
    canvas[idx] = bytes[0];
    canvas[idx + 1] = bytes[1];
    canvas[idx + 2] = bytes[2];
    canvas[idx + 3] = bytes[3];
    proof {
        let ghost idx = idx as int;
        assert(canvas@ =~= old(canvas)@.take(idx) + color.spec_argb8888() + old(canvas)@.skip(
            idx + 4,
        ));
    }
}

impl DrawCtx<'_> {
    /// Writes the four bytes of `color` for the pixel at `pnt`. Rows are
    /// `rect.width()` pixels long.
    pub fn put(&mut self, pnt: Point, color: Color)
        requires
            old(self).rect.wf(),
            old(self).rect.spec_contains(pnt),
            pnt.x + pnt.y * old(self).rect.spec_width() <= u32::MAX,
            pixel_offset(pnt, old(self).rect.spec_width()) + 4 <= old(self).canvas@.len(),
        ensures
            ({
                let idx = pixel_offset(pnt, old(self).rect.spec_width());
                final(self).canvas@ == old(self).canvas@.take(idx) + color.spec_argb8888()
                    + old(self).canvas@.skip(idx + 4)
            }),
            *final(self).damage == *old(self).damage,
            final(self).buffer == old(self).buffer,
            final(self).rect == old(self).rect,
            final(self).full_redraw == old(self).full_redraw,
    {
        put_pixel(self.canvas, self.rect, pnt, color);
    }
}

} // verus!
