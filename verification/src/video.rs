//! The 64x32 monochrome framebuffer and its XOR sprite compositing.
//!
//! Each of the 32 rows is one `u64` bitmask; bit 63 is the leftmost pixel.
//! Sprites are XOR-composited: a draw reports a collision when it clears a
//! pixel that was set. Showing the frame to the user is delegated to a
//! host-provided `VideoDriver`.

use vstd::prelude::*;

verus! {

/// How a host driver renders the display. The driver receives the whole
/// 32-row bitmask on every redraw request.
pub trait VideoDriver {
    fn draw(&mut self, bitmap: &[u64; 32]);
}

/// The framebuffer together with the driver that shows it.
pub struct VideoDisplay<D: VideoDriver> {
    buffer: [u64; 32],
    driver: D,
}

impl<D: VideoDriver> View for VideoDisplay<D> {
    type V = Seq<u64>;

    closed spec fn view(&self) -> Seq<u64> {
        self.buffer@
    }
}

/// An all-zero frame: every pixel off.
pub open spec fn spec_blank_frame() -> Seq<u64> {
    Seq::new(32, |i: int| 0u64)
}

/// The 64-bit row mask of one sprite byte: the byte's most significant bit
/// lands in column `x % 64`; bits pushed past the right edge are discarded,
/// never wrapped.
pub open spec fn spec_row_mask(line: u8, x: u8) -> u64 {
    ((line as u64) << 56) >> ((x % 64) as u64)
}

/// Framebuffer and collision flag after XOR-compositing the sprite `rows`
/// at `(x, y)`: row `i` of the sprite lands in framebuffer row
/// `(y + i) % 32`, consumed top to bottom. The collision flag is set as
/// soon as a set destination bit is cleared by the XOR.
pub open spec fn spec_draw(fb: Seq<u64>, x: u8, y: u8, rows: Seq<u8>) -> (Seq<u64>, bool)
    decreases rows.len(),
{
    if rows.len() == 0 {
        (fb, false)
    } else {
        let prior = spec_draw(fb, x, y, rows.drop_last());
        let j = (y + rows.len() - 1) % 32;
        let m = spec_row_mask(rows.last(), x);
        (prior.0.update(j, prior.0[j] ^ m), prior.1 || ((prior.0[j] & m) != 0u64))
    }
}

impl<D: VideoDriver> VideoDisplay<D> {
    /// A blank display using the given driver.
    pub fn new(driver: D) -> (r: Self)
        ensures
            r@ == spec_blank_frame(),
    {
        let r = VideoDisplay { buffer: [0u64; 32], driver };
        proof {
            assert(r@ =~= spec_blank_frame());
        }
        r
    }

    /// Turns every pixel off. The screen itself is only updated on the next
    /// `update_screen` call.
    pub fn clear_buffer(&mut self)
        ensures
            final(self)@ == spec_blank_frame(),
    {
        let mut i: usize = 0;
        while i < 32
            invariant
                i <= 32,
                self@.len() == 32,
                forall|j: int| 0 <= j < i ==> self@[j] == 0u64,
            decreases 32 - i,
        {
            self.buffer[i] = 0;
            i += 1;
        }
        proof {
            assert(self@ =~= spec_blank_frame());
        }
    }

    /// XOR-composites the sprite `sprite_lines` at `(inputx, inputy)` and
    /// returns the collision flag: whether any set pixel was turned off.
    pub fn draw_sprite(&mut self, inputx: u8, inputy: u8, sprite_lines: &Vec<u8>) -> (collision:
        bool)
        ensures
            final(self)@.len() == 32,
            final(self)@ == spec_draw(old(self)@, inputx, inputy, sprite_lines@).0,
            collision == spec_draw(old(self)@, inputx, inputy, sprite_lines@).1,
    {
        let mut collision = false;
        let mut i: usize = 0;
        while i < sprite_lines.len()
            invariant
                i <= sprite_lines@.len(),
                self@.len() == 32,
                (self@, collision) == spec_draw(
                    old(self)@,
                    inputx,
                    inputy,
                    sprite_lines@.take(i as int),
                ),
            decreases sprite_lines@.len() - i,
        {
            proof {
                assert(sprite_lines@.take(i + 1).drop_last() =~= sprite_lines@.take(i as int));
                assert(sprite_lines@.take(i + 1).last() == sprite_lines@[i as int]);
                vstd::arithmetic::div_mod::lemma_add_mod_noop(inputy as int, i as int, 32);
            }
            let j = ((inputy as usize) % 32 + i % 32) % 32;
            let m = ((sprite_lines[i] as u64) << 56) >> ((inputx % 64) as u64);
            if self.buffer[j] & m != 0 {
                collision = true;
            }
            self.buffer[j] = self.buffer[j] ^ m;
            i += 1;
        }
        proof {
            assert(sprite_lines@.take(sprite_lines@.len() as int) =~= sprite_lines@);
        }
        collision
    }

    /// Hands the current frame to the driver; the buffer itself is
    /// unchanged.
    pub fn update_screen(&mut self)
        ensures
            final(self)@ == old(self)@,
    {
        let frame = self.buffer;
        self.driver.draw(&frame);
    }

    /// A copy of the 32-row bitmask, for a display sink or a test.
    pub fn snapshot(&self) -> (r: [u64; 32])
        ensures
            r@ == self@,
    {
        self.buffer
    }
}

} // verus!
