//! The pixel buffer that a render fills, with its ray counter.

use vstd::prelude::*;

verus! {

/// What an [`Image`] is, as plain mathematical values.
pub struct ImageView {
    pub width: nat,
    pub height: nat,
    /// The pixels in row-major order, each as red, green, blue, alpha.
    pub pixels: Seq<[u8; 4]>,
    pub rays: nat,
}

/// A `width` by `height` buffer of RGBA pixels and a count of the rays cast
/// to fill it.
pub struct Image {
    width: u32,
    height: u32,
    pixels: Vec<[u8; 4]>,
    rays: u32,
}

impl View for Image {
    type V = ImageView;

    closed spec fn view(&self) -> ImageView {
        ImageView {
            width: self.width as nat,
            height: self.height as nat,
            pixels: self.pixels@,
            rays: self.rays as nat,
        }
    }
}

/// Why an image could not be turned into a PNG stream.
#[derive(Debug)]
pub enum ImageError {
    /// The image has no columns.
    ZeroWidth,
    /// The image has no rows.
    ZeroHeight,
    /// The buffer does not hold one pixel per position.
    BufferSize,
    /// The encoder gave up; its own error is kept.
    Encoder(png::EncodingError),
}

/// The eight bytes that open every PNG stream.
pub open spec fn png_signature() -> Seq<u8> {
    seq![137u8, 80u8, 78u8, 71u8, 13u8, 10u8, 26u8, 10u8]
}

/// The bytes of a pixel sequence, four per pixel, in order.
pub open spec fn rgba_bytes(pixels: Seq<[u8; 4]>) -> Seq<u8> {
    Seq::new(4 * pixels.len(), |j: int| pixels[j / 4][j % 4])
}

/// The pixel that a fresh image holds everywhere: black, fully opaque.
pub open spec fn blank_pixel(p: [u8; 4]) -> bool {
    p[0] == 0 && p[1] == 0 && p[2] == 0 && p[3] == 255
}

/// `r` is the square root of `p`, rounded down.
pub open spec fn is_floor_sqrt(p: int, r: int) -> bool {
    0 <= r && r * r <= p < (r + 1) * (r + 1)
}

/// The position of pixel (`x`, `y`) in a row-major buffer of the given width.
pub open spec fn pixel_index(width: nat, x: nat, y: nat) -> nat {
    y * width + x
}

/// The square of a number small enough for the square to be a channel value.
fn small_square(x: u8) -> (s: u8)
    requires
        x <= 15,
    ensures
        s == x * x,
{
    assert(x * x <= 225) by (nonlinear_arith)
        requires
            x <= 15,
    ;
    x * x
}

/// The square root of a channel value, rounded down.
pub fn channel_sqrt(p: u8) -> (r: u8)
    ensures
        is_floor_sqrt(p as int, r as int),
{
    let mut r: u8 = 0;
    while r < 15 && small_square(r + 1) <= p
        invariant
            r <= 15,
            r * r <= p,
        decreases 15 - r,
    {
        r = r + 1;
    }
    r
}

impl Image {
    /// Whether the buffer holds exactly one pixel per position.
    pub open spec fn well_formed(&self) -> bool {
        self@.pixels.len() == self@.width * self@.height
    }

    /// A `width` by `height` image of black opaque pixels, with no ray counted.
    pub fn new(width: u32, height: u32) -> (image: Image)
        requires
            width * height <= u32::MAX,
        ensures
            image@.width == width,
            image@.height == height,
            image@.rays == 0,
            image@.pixels.len() == width * height,
            forall|i: int| 0 <= i < image@.pixels.len() ==> blank_pixel(#[trigger] image@.pixels[i]),
            image.well_formed(),
    {
        let count: u32 = width * height;
        let mut pixels: Vec<[u8; 4]> = Vec::new();
        let mut i: u32 = 0;
        while i < count
            invariant
                i <= count,
                pixels@.len() == i,
                forall|k: int| 0 <= k < pixels@.len() ==> blank_pixel(#[trigger] pixels@[k]),
            decreases count - i,
        {
            pixels.push([0u8, 0u8, 0u8, 255u8]);
            i = i + 1;
        }
        Image { width, height, pixels, rays: 0 }
    }

    /// Replaces each colour channel by its square root, rounded down, and
    /// makes every pixel opaque.
    pub fn correct_gamma(&mut self)
        ensures
            final(self)@.width == old(self)@.width,
            final(self)@.height == old(self)@.height,
            final(self)@.rays == old(self)@.rays,
            final(self)@.pixels.len() == old(self)@.pixels.len(),
            forall|i: int, c: int|
                0 <= i < old(self)@.pixels.len() && 0 <= c < 3 ==> is_floor_sqrt(
                    old(self)@.pixels[i][c] as int,
                    (#[trigger] final(self)@.pixels[i][c]) as int,
                ),
            forall|i: int| 0 <= i < old(self)@.pixels.len() ==> (#[trigger] final(self)@.pixels[i])[3] == 255,
    {
        let n: usize = self.pixels.len();
        let mut i: usize = 0;
        while i < n
            invariant
                i <= n,
                n == self.pixels@.len(),
                n == old(self).pixels@.len(),
                self.width == old(self).width,
                self.height == old(self).height,
                self.rays == old(self).rays,
                forall|k: int, c: int|
                    0 <= k < i && 0 <= c < 3 ==> is_floor_sqrt(
                        old(self).pixels@[k][c] as int,
                        (#[trigger] self.pixels@[k][c]) as int,
                    ),
                forall|k: int| 0 <= k < i ==> (#[trigger] self.pixels@[k])[3] == 255,
                forall|k: int| i <= k < n ==> self.pixels@[k] == old(self).pixels@[k],
            decreases n - i,
        {
            let p: [u8; 4] = self.pixels[i];
            let q: [u8; 4] = [channel_sqrt(p[0]), channel_sqrt(p[1]), channel_sqrt(p[2]), 255u8];
            self.pixels.set(i, q);
            i = i + 1;
        }
    }

    /// Stores `color` at column `x` of row `y`.
    pub fn set_pixel(&mut self, x: u32, y: u32, color: [u8; 4])
        requires
            pixel_index(old(self)@.width, x as nat, y as nat) <= u32::MAX,
            pixel_index(old(self)@.width, x as nat, y as nat) < old(self)@.pixels.len(),
        ensures
            final(self)@ == (ImageView {
                pixels: old(self)@.pixels.update(
                    pixel_index(old(self)@.width, x as nat, y as nat) as int,
                    color,
                ),
                ..old(self)@
            }),
    {
        assert(y * self.width <= y * self.width + x);
        let index: u32 = y * self.width + x;
        self.pixels.set(index as usize, color);
    }

    /// Counts one more ray.
    pub fn increment_ray_count(&mut self)
        requires
            old(self)@.rays < u32::MAX,
        ensures
            final(self)@ == (ImageView { rays: (old(self)@.rays + 1) as nat, ..old(self)@ }),
    {
        self.rays = self.rays + 1;
    }

    /// Sets the number of rays counted.
    pub fn set_ray_count(&mut self, rays: u32)
        ensures
            final(self)@ == (ImageView { rays: rays as nat, ..old(self)@ }),
    {
        self.rays = rays;
    }

    /// Counts `rays` more rays.
    pub fn jump_ray_count(&mut self, rays: u32)
        requires
            old(self)@.rays + rays <= u32::MAX,
        ensures
            final(self)@ == (ImageView { rays: (old(self)@.rays + rays) as nat, ..old(self)@ }),
    {
        self.rays = self.rays + rays;
    }

    /// The number of rays counted so far.
    pub fn get_ray_count(&self) -> (rays: u32)
        ensures
            rays == self@.rays,
    {
        self.rays
    }

    /// The number of columns.
    pub fn get_width(&self) -> (width: u32)
        ensures
            width == self@.width,
    {
        self.width
    }

    /// The number of rows.
    pub fn get_height(&self) -> (height: u32)
        ensures
            height == self@.height,
    {
        self.height
    }

    /// The pixels in row-major order.
    pub fn get_pixels(&self) -> (pixels: &Vec<[u8; 4]>)
        ensures
            pixels@ == self@.pixels,
    {
        &self.pixels
    }

    /// The pixel data as one run of bytes, four per pixel.
    pub fn to_rgba_bytes(&self) -> (buffer: Vec<u8>)
        ensures
            buffer@ == rgba_bytes(self@.pixels),
    {
        let n: usize = self.pixels.len();
        let mut buffer: Vec<u8> = Vec::new();
        let mut i: usize = 0;
        while i < n
            invariant
                i <= n,
                n == self.pixels@.len(),
                buffer@.len() == 4 * i,
                forall|j: int| 0 <= j < 4 * i ==> #[trigger] buffer@[j] == self.pixels@[j / 4][j % 4],
            decreases n - i,
        {
            let p: [u8; 4] = self.pixels[i];
            buffer.push(p[0]);
            buffer.push(p[1]);
            buffer.push(p[2]);
            buffer.push(p[3]);
            i = i + 1;
        }
        assert(buffer@ =~= rgba_bytes(self@.pixels));
        buffer
    }

    /// What `encode_png` returns once the encoder has answered with
    /// `outcome`: the stream as it is, or the encoder's error wrapped.
    pub fn encoded(outcome: Result<Vec<u8>, png::EncodingError>) -> (r: Result<Vec<u8>, ImageError>)
        ensures
            outcome matches Ok(stream) ==> r == Ok::<Vec<u8>, ImageError>(stream),
            outcome matches Err(e) ==> r == Err::<Vec<u8>, ImageError>(ImageError::Encoder(e)),
    {
        match outcome {
            Ok(stream) => Ok(stream),
            Err(e) => Err(ImageError::Encoder(e)),
        }
    }

    /// The image as a PNG stream, RGBA with eight bits per channel.
    ///
    /// An image without columns or rows, or whose buffer does not hold one
    /// pixel per position, is refused before the encoder is asked. Every
    /// other image has a stream, the one that the encoder writes for it.
    pub fn encode_png(&self) -> (r: Result<Vec<u8>, ImageError>)
        ensures
            r is Ok <==> self@.width != 0 && self@.height != 0 && self.well_formed(),
            r matches Err(ImageError::ZeroWidth) <==> self@.width == 0,
            r matches Err(ImageError::ZeroHeight) <==> self@.width != 0 && self@.height == 0,
            r matches Err(ImageError::BufferSize) <==> self@.width != 0 && self@.height != 0
                && !self.well_formed(),
            r matches Ok(stream) ==> stream@ == crate::png_sink::png_stream(
                self@.width as u32,
                self@.height as u32,
                rgba_bytes(self@.pixels),
            ) && stream@.len() >= 8 && stream@.subrange(0, 8) == png_signature(),
    {
        if self.width == 0 {
            return Err(ImageError::ZeroWidth);
        }
        if self.height == 0 {
            return Err(ImageError::ZeroHeight);
        }
        assert(self.width * self.height <= 0xffff_ffff * 0xffff_ffff) by (nonlinear_arith)
            requires
                self.width <= 0xffff_ffff,
                self.height <= 0xffff_ffff,
        ;
        let count: u64 = (self.width as u64) * (self.height as u64);
        if self.pixels.len() as u64 != count {
            return Err(ImageError::BufferSize);
        }
        let data: Vec<u8> = self.to_rgba_bytes();
        assert(data@.len() == 4 * self.pixels@.len());
        assert(data@.len() == data.len());
        assert(4 * self.width * self.height == 4 * (self.width * self.height)) by (nonlinear_arith);
        Image::encoded(crate::png_sink::encode_rgba8(self.width, self.height, &data))
    }

    /// Replaces the whole pixel buffer.
    pub fn set_pixels(&mut self, pixels: Vec<[u8; 4]>)
        ensures
            final(self)@ == (ImageView { pixels: pixels@, ..old(self)@ }),
    {
        self.pixels = pixels;
    }
}

} // verus!
