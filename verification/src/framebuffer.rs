//! A fixed-size buffer of packed colors with bounded single-pixel writes.

use vstd::prelude::*;
use crate::index::{lemma_index_in_range, row_major};

verus! {

/// What a [`Framebuffer`] holds: its dimensions, the two colors that later
/// operations will use, and the pixels in row-major order.
pub struct FramebufferView {
    pub width: nat,
    pub height: nat,
    pub background_color: u32,
    pub current_color: u32,
    pub pixels: Seq<u32>,
}

impl FramebufferView {
    /// One pixel for every position of the `width` x `height` rectangle.
    pub open spec fn wf(self) -> bool {
        self.pixels.len() == self.width * self.height
    }

    /// Whether `(x, y)` names a pixel.
    pub open spec fn in_bounds(self, x: int, y: int) -> bool {
        0 <= x < self.width && 0 <= y < self.height
    }

    /// Where the pixel `(x, y)` stands in `pixels`.
    pub open spec fn index_of(self, x: int, y: int) -> int {
        row_major(self.width as int, x, y)
    }
}

/// A pixel buffer of fixed size together with the two colors that drawing
/// uses. It always holds exactly one pixel for each position.
pub struct Framebuffer {
    buffer: Vec<u32>,
    width: usize,
    height: usize,
    background_color: u32,
    current_color: u32,
}

impl View for Framebuffer {
    type V = FramebufferView;

    closed spec fn view(&self) -> FramebufferView {
        FramebufferView {
            width: self.width as nat,
            height: self.height as nat,
            background_color: self.background_color,
            current_color: self.current_color,
            pixels: self.buffer@,
        }
    }
}

impl Framebuffer {
    #[verifier::type_invariant]
    spec fn inv(&self) -> bool {
        self.buffer.len() == self.width * self.height
    }

    /// A buffer of `width * height` pixels, all zero, with a black background
    /// color and a white drawing color.
    pub fn new(width: usize, height: usize) -> (fb: Self)
        requires
            width * height <= usize::MAX,
        ensures
            fb@ == (FramebufferView {
                width: width as nat,
                height: height as nat,
                background_color: 0x000000,
                current_color: 0xFFFFFF,
                pixels: Seq::new((width * height) as nat, |i: int| 0u32),
            }),
            fb@.wf(),
    {
        let buffer: Vec<u32> = vec![0u32; width * height];
        let fb = Self { buffer, width, height, background_color: 0x000000, current_color: 0xFFFFFF };
        assert(fb@.pixels =~= Seq::new((width * height) as nat, |i: int| 0u32));
        fb
    }

    /// The number of columns.
    pub fn width(&self) -> (width: usize)
        ensures
            width == self@.width,
            self@.wf(),
    {
        proof {
            use_type_invariant(self);
        }
        self.width
    }

    /// The number of rows.
    pub fn height(&self) -> (height: usize)
        ensures
            height == self@.height,
            self@.wf(),
    {
        proof {
            use_type_invariant(self);
        }
        self.height
    }

    /// The pixels, row by row: one packed color for each position.
    pub fn buffer(&self) -> (buffer: &Vec<u32>)
        ensures
            buffer@ == self@.pixels,
            self@.wf(),
    {
        proof {
            use_type_invariant(self);
        }
        &self.buffer
    }

    /// Chooses the color that `clear` will fill with. No pixel changes.
    pub fn set_background_color(&mut self, color: u32)
        ensures
            final(self)@ == (FramebufferView { background_color: color, ..old(self)@ }),
            old(self)@.wf(),
            final(self)@.wf(),
    {
        proof {
            use_type_invariant(&*self);
        }
        self.background_color = color;
    }

    /// Overwrites every pixel with the background color.
    pub fn clear(&mut self)
        ensures
            final(self)@ == (FramebufferView {
                pixels: Seq::new(old(self)@.pixels.len(), |i: int| old(self)@.background_color),
                ..old(self)@
            }),
            old(self)@.wf(),
            final(self)@.wf(),
    {
        proof {
            use_type_invariant(&*self);
        }
        let n = self.buffer.len();
        let mut i: usize = 0;
        while i < n
            invariant
                i <= n,
                n == self.buffer.len(),
                self.buffer.len() == old(self).buffer.len(),
                self.buffer.len() == self.width * self.height,
                self.width == old(self).width,
                self.height == old(self).height,
                self.background_color == old(self).background_color,
                self.current_color == old(self).current_color,
                forall|j: int| 0 <= j < i ==> self.buffer[j] == self.background_color,
            decreases n - i,
        {
            self.buffer[i] = self.background_color;
            i += 1;
        }
        assert(self.buffer@ =~= Seq::new(
            old(self)@.pixels.len(),
            |i: int| old(self)@.background_color,
        ));
    }

    /// Chooses the color that `point` will write. No pixel changes.
    pub fn set_current_color(&mut self, color: u32)
        ensures
            final(self)@ == (FramebufferView { current_color: color, ..old(self)@ }),
            old(self)@.wf(),
            final(self)@.wf(),
    {
        proof {
            use_type_invariant(&*self);
        }
        self.current_color = color;
    }

    /// Writes the drawing color at `(x, y)`; a position outside the buffer is
    /// clipped and nothing changes.
    pub fn point(&mut self, x: usize, y: usize)
        ensures
            old(self)@.in_bounds(x as int, y as int) ==> final(self)@ == (FramebufferView {
                pixels: old(self)@.pixels.update(
                    old(self)@.index_of(x as int, y as int),
                    old(self)@.current_color,
                ),
                ..old(self)@
            }),
            !old(self)@.in_bounds(x as int, y as int) ==> final(self)@ == old(self)@,
            old(self)@.wf(),
            final(self)@.wf(),
    {
        proof {
            use_type_invariant(&*self);
        }
        if x < self.width && y < self.height {
            proof {
                lemma_index_in_range(self.width as int, self.height as int, x as int, y as int);
            }
            self.buffer[y * self.width + x] = self.current_color;
        }
    }
}

} // verus!
