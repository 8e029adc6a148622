use vstd::prelude::*;

verus! {

/// Bytes per pixel of a decoded image: red, green, blue.
pub const BYTES_PER_PIXEL: usize = 3;

/// What an image lookup hands back when there is no pixel data: magenta.
pub const MISSING_RED: u8 = 255;
pub const MISSING_GREEN: u8 = 0;
pub const MISSING_BLUE: u8 = 255;

/// `x` held in `[low, high)`: below `low` gives `low`, at or above `high` gives `high - 1`.
pub open spec fn clamp_spec(x: int, low: int, high: int) -> int {
    if x < low {
        low
    } else if x < high {
        x
    } else {
        high - 1
    }
}

/// A decoded image as rows of RGB bytes, top row first.
#[derive(Clone)]
pub struct RTWImage {
    bdata: Vec<u8>,
    width: usize,
    height: usize,
}

/// The outcome of looking up an image texture at surface coordinates.
#[derive(Clone, Copy, Debug, PartialEq, Eq)]
pub enum TexelLookup {
    /// The image has no rows; shown as cyan.
    NoImage,
    /// The surface coordinates were not numbers; shown as magenta.
    BadCoordinates,
    /// The bytes of the pixel looked up.
    Pixel([u8; 3]),
}

impl RTWImage {
    pub closed spec fn wf(&self) -> bool {
        &&& self.width <= i32::MAX
        &&& self.height <= i32::MAX
        &&& self.bdata@.len() == self.width * self.height * BYTES_PER_PIXEL
    }

    pub closed spec fn width_spec(&self) -> nat {
        self.width as nat
    }

    pub closed spec fn height_spec(&self) -> nat {
        self.height as nat
    }

    pub closed spec fn bytes(&self) -> Seq<u8> {
        self.bdata@
    }

    /// Offset of the first byte of the pixel at `(x, y)` once both are clamped into the image.
    pub open spec fn pixel_offset(&self, x: int, y: int) -> int {
        let w = self.width_spec() as int;
        clamp_spec(y, 0, self.height_spec() as int) * (w * BYTES_PER_PIXEL) + clamp_spec(x, 0, w)
            * BYTES_PER_PIXEL
    }

    /// The three bytes that `pixel_data(x, y)` returns.
    pub open spec fn pixel_spec(&self, x: int, y: int) -> Seq<u8> {
        let b = self.bytes();
        if b.len() == 0 {
            seq![MISSING_RED, MISSING_GREEN, MISSING_BLUE]
        } else {
            let o = self.pixel_offset(x, y);
            seq![b[o], b[o + 1], b[o + 2]]
        }
    }

    /// An image with no pixels.
    pub fn new() -> (r: Self)
        ensures
            r.wf(),
            r.width_spec() == 0,
            r.height_spec() == 0,
            r.bytes().len() == 0,
    {
        RTWImage { bdata: Vec::new(), width: 0, height: 0 }
    }

    /// An image of `width` by `height` pixels holding `bdata`, row after row, three bytes a
    /// pixel. `None` when the length of `bdata` does not match, or a side exceeds `i32::MAX`.
    pub fn from_bytes(width: usize, height: usize, bdata: Vec<u8>) -> (r: Option<Self>)
        ensures
            r is Some <==> (width <= i32::MAX && height <= i32::MAX && bdata@.len() == width
                * height * BYTES_PER_PIXEL),
            r matches Some(img) ==> img.wf() && img.width_spec() == width && img.height_spec()
                == height && img.bytes() == bdata@,
    {
        if width > i32::MAX as usize || height > i32::MAX as usize {
            return None;
        }
        let w: u64 = width as u64;
        let h: u64 = height as u64;
        assert(w * h <= 0x7fff_ffff * 0x7fff_ffff) by (nonlinear_arith)
            requires
                w <= 0x7fff_ffff,
                h <= 0x7fff_ffff,
        ;
        let total: u64 = w * h * BYTES_PER_PIXEL as u64;
        if bdata.len() as u64 != total {
            return None;
        }
        Some(RTWImage { bdata, width, height })
    }

    /// `x` held in `[low, high)`.
    pub fn clamp(x: i32, low: i32, high: i32) -> (r: i32)
        requires
            low < high,
        ensures
            r == clamp_spec(x as int, low as int, high as int),
    {
        if x < low {
            low
        } else if x < high {
            x
        } else {
            high - 1
        }
    }

    /// The RGB bytes of the pixel at `(x, y)`, with both coordinates clamped into the image,
    /// or magenta when the image has no pixel data.
    pub fn pixel_data(&self, x: i32, y: i32) -> (r: [u8; 3])
        requires
            self.wf(),
        ensures
            r@ == self.pixel_spec(x as int, y as int),
    {
        if self.bdata.len() == 0 {
            return [MISSING_RED, MISSING_GREEN, MISSING_BLUE];
        }
        proof {
            let w = self.width as int;
            let h = self.height as int;
            assert(w > 0 && h > 0) by (nonlinear_arith)
                requires
                    w * h * 3 > 0,
                    w >= 0,
                    h >= 0,
            ;
        }
        let xi = Self::clamp(x, 0, self.width as i32) as usize;
        let yi = Self::clamp(y, 0, self.height as i32) as usize;
        proof {
            let w = self.width as int;
            let h = self.height as int;
            assert(yi * (w * 3) + xi * 3 + 2 < w * h * 3) by (nonlinear_arith)
                requires
                    0 <= xi < w,
                    0 <= yi < h,
            ;
            assert((yi * w + xi) * 3 == yi * (w * 3) + xi * 3) by (nonlinear_arith);
            assert(yi * w + xi < w * h) by (nonlinear_arith)
                requires
                    0 <= xi < w,
                    0 <= yi < h,
            ;
        }
        let offset = (yi * self.width + xi) * BYTES_PER_PIXEL;
        let r = [self.bdata[offset], self.bdata[offset + 1], self.bdata[offset + 2]];
        assert(r@ =~= self.pixel_spec(x as int, y as int));
        r
    }

    /// Decides what an image texture shows: cyan for an image without rows, magenta for
    /// coordinates that are not numbers (`None`), else the pixel at the given coordinates.
    pub fn lookup(&self, coords: Option<(i32, i32)>) -> (r: TexelLookup)
        requires
            self.wf(),
        ensures
            self.height_spec() == 0 ==> r is NoImage,
            self.height_spec() > 0 && coords is None ==> r is BadCoordinates,
            self.height_spec() > 0 ==> match coords {
                Some((x, y)) => r matches TexelLookup::Pixel(p) && p@ == self.pixel_spec(x as int, y as int),
                None => true,
            },
    {
        if self.height == 0 {
            return TexelLookup::NoImage;
        }
        match coords {
            None => TexelLookup::BadCoordinates,
            Some((x, y)) => TexelLookup::Pixel(self.pixel_data(x, y)),
        }
    }

    pub fn width(&self) -> (r: usize)
        ensures
            r == self.width_spec(),
    {
        self.width
    }

    pub fn height(&self) -> (r: usize)
        ensures
            r == self.height_spec(),
    {
        self.height
    }
}

} // verus!
