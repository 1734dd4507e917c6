//! The bookkeeping of a render: which pixel is traced next, what has been
//! traced so far, and the image that comes out at the end.
//!
//! A pass starts out configured, takes one colour per pixel in row-major
//! order while it renders, and is complete once every pixel has its colour.
//! Tracing the rays of a pixel is the caller's part.

use crate::image::Image;
use crate::image::ImageView;
use vstd::prelude::*;

verus! {

/// What a [`RenderPass`] is, as plain mathematical values.
pub struct RenderPassView {
    pub width: nat,
    pub height: nat,
    /// The number of rays cast for each pixel.
    pub samples: nat,
    /// The colours recorded so far, in row-major order.
    pub done: Seq<[u8; 4]>,
    /// The number of rays counted so far.
    pub rays: nat,
}

impl RenderPassView {
    /// The number of pixels of the image.
    pub open spec fn total(&self) -> nat {
        self.width * self.height
    }

    /// Every pixel has its colour.
    pub open spec fn is_complete(&self) -> bool {
        self.done.len() == self.total()
    }
}

/// The colour as it is stored: its red, green and blue, fully opaque.
pub open spec fn opaque(color: [u8; 4]) -> [u8; 4] {
    [color[0], color[1], color[2], 255u8]
}

/// A render in progress.
pub struct RenderPass {
    width: u32,
    height: u32,
    samples: u32,
    done: Vec<[u8; 4]>,
    rays: u32,
}

impl View for RenderPass {
    type V = RenderPassView;

    closed spec fn view(&self) -> RenderPassView {
        RenderPassView {
            width: self.width as nat,
            height: self.height as nat,
            samples: self.samples as nat,
            done: self.done@,
            rays: self.rays as nat,
        }
    }
}

impl RenderPass {
    /// What every pass upholds: the rays of the whole pass fit the counter,
    /// no more colours are recorded than the image has pixels, and the rays
    /// counted are those of the recorded pixels.
    pub closed spec fn well_formed(&self) -> bool {
        &&& self.width * self.height <= u32::MAX
        &&& self.width * self.height * self.samples <= u32::MAX
        &&& self.done@.len() <= self.width * self.height
        &&& self.rays == self.done@.len() * self.samples
        &&& forall|i: int| 0 <= i < self.done@.len() ==> (#[trigger] self.done@[i])[3] == 255
    }

    /// A pass over a `width` by `height` image with `samples` rays for each
    /// pixel, before the first pixel. The number of rays of the whole pass
    /// must fit the ray counter.
    pub fn begin(width: u32, height: u32, samples: u32) -> (pass: RenderPass)
        requires
            width * height <= u32::MAX,
            width * height * samples <= u32::MAX,
        ensures
            pass.well_formed(),
            pass@ == (RenderPassView {
                width: width as nat,
                height: height as nat,
                samples: samples as nat,
                done: Seq::empty(),
                rays: 0,
            }),
            pass@.total() == width * height,
    {
        let done: Vec<[u8; 4]> = Vec::new();
        assert(done@.len() * samples == 0) by (nonlinear_arith)
            requires
                done@.len() == 0,
        ;
        RenderPass { width, height, samples, done, rays: 0 }
    }

    /// Whether every pixel has its colour.
    pub fn is_complete(&self) -> (complete: bool)
        requires
            self.well_formed(),
        ensures
            complete == self@.is_complete(),
            self@.done.len() <= self@.total(),
    {
        let total: u32 = self.width * self.height;
        self.done.len() == total as usize
    }

    /// The column and row of the pixel whose colour is due next, or `None`
    /// once the pass is complete. Pixels come row by row, each row from its
    /// first column on.
    pub fn next_pixel(&self) -> (next: Option<(u32, u32)>)
        requires
            self.well_formed(),
        ensures
            next is None <==> self@.is_complete(),
            next matches Some((x, y)) ==> {
                &&& x == self@.done.len() % self@.width
                &&& y == self@.done.len() / self@.width
                &&& x < self@.width
                &&& y < self@.height
                &&& y * self@.width + x == self@.done.len()
            },
    {
        let total: u32 = self.width * self.height;
        let at: usize = self.done.len();
        if at >= total as usize {
            return None;
        }
        let index: u32 = at as u32;
        let x: u32 = index % self.width;
        let y: u32 = index / self.width;
        proof {
            let w = self.width as int;
            let h = self.height as int;
            let i = index as int;
            assert(w > 0) by (nonlinear_arith)
                requires
                    i < w * h,
                    0 <= i,
                    0 <= w,
            ;
            assert(i == w * (i / w) + i % w) by (nonlinear_arith)
                requires
                    w > 0,
            ;
            assert(y as int * w == w * (i / w)) by (nonlinear_arith)
                requires
                    y as int == i / w,
            ;
            assert(i / w < h) by (nonlinear_arith)
                requires
                    w > 0,
                    0 <= i < w * h,
            ;
        }
        Some((x, y))
    }

    /// The number of rays cast so far.
    pub fn rays_cast(&self) -> (rays: u32)
        requires
            self.well_formed(),
        ensures
            rays == self@.rays,
            rays == self@.done.len() * self@.samples,
    {
        self.rays
    }

    /// Records the colour of the pixel that was due, and counts its rays.
    /// Whatever alpha the colour comes with, the pixel is stored opaque.
    pub fn record(&mut self, color: [u8; 4])
        requires
            old(self).well_formed(),
            !old(self)@.is_complete(),
        ensures
            final(self).well_formed(),
            final(self)@ == (RenderPassView {
                done: old(self)@.done.push(opaque(color)),
                rays: old(self)@.rays + old(self)@.samples,
                ..old(self)@
            }),
    {
        proof {
            let n = self.done@.len() as int;
            let t = (self.width * self.height) as int;
            let s = self.samples as int;
            assert((n + 1) * s <= t * s) by (nonlinear_arith)
                requires
                    n + 1 <= t,
                    0 <= s,
            ;
            assert((n + 1) * s == n * s + s) by (nonlinear_arith);
        }
        let stored: [u8; 4] = [color[0], color[1], color[2], 255u8];
        assert(stored == opaque(color));
        self.done.push(stored);
        self.rays = self.rays + self.samples;
    }

    /// The image of a complete pass: the recorded colours, every one of them
    /// opaque, and the count of all the rays cast.
    pub fn finish(self) -> (image: Image)
        requires
            self.well_formed(),
            self@.is_complete(),
        ensures
            image@ == (ImageView {
                width: self@.width,
                height: self@.height,
                pixels: self@.done,
                rays: self@.total() * self@.samples,
            }),
            image.well_formed(),
            forall|i: int| 0 <= i < image@.pixels.len() ==> (#[trigger] image@.pixels[i])[3] == 255,
    {
        let mut image: Image = Image::new(self.width, self.height);
        image.set_pixels(self.done);
        image.set_ray_count(self.rays);
        image
    }
}

} // verus!
