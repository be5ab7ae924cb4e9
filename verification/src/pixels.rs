//! RGB pixel buffers: a width, a height and `width * height` byte triples in
//! row-major order. All index arithmetic on buffers lives here.

use vstd::prelude::*;

verus! {

/// Bytes per pixel.
pub const CHANNELS: usize = 3;

/// One pixel.
#[derive(Clone, Copy, Debug, PartialEq, Eq, Structural)]
pub struct Rgb {
    pub r: u8,
    pub g: u8,
    pub b: u8,
}

/// The colour every canvas starts from and that suppressed pixels take.
pub open spec fn black() -> Rgb {
    Rgb { r: 0, g: 0, b: 0 }
}

impl Rgb {
    /// Black, as an executable value.
    pub fn black() -> (p: Rgb)
        ensures
            p == black(),
    {
        Rgb { r: 0, g: 0, b: 0 }
    }
}

/// Channel `c` of a pixel: 0 is red, 1 is green, anything else is blue.
pub open spec fn channel_value(p: Rgb, c: int) -> u8 {
    if c == 0 {
        p.r
    } else if c == 1 {
        p.g
    } else {
        p.b
    }
}

/// One of the three colour channels of a pixel.
#[derive(Clone, Copy, Debug, PartialEq, Eq, Structural)]
pub enum Channel {
    Red,
    Green,
    Blue,
}

impl Channel {
    /// Position of the channel's byte inside a pixel's triple.
    pub open spec fn index(self) -> int {
        match self {
            Channel::Red => 0,
            Channel::Green => 1,
            Channel::Blue => 2,
        }
    }

    /// Position of the channel's byte inside a pixel's triple.
    pub fn position(self) -> (i: usize)
        ensures
            i == self.index(),
    {
        match self {
            Channel::Red => 0,
            Channel::Green => 1,
            Channel::Blue => 2,
        }
    }
}

/// The mathematical model of a pixel buffer.
pub struct PixelGrid {
    pub width: nat,
    pub height: nat,
    pub bytes: Seq<u8>,
}

impl PixelGrid {
    /// The byte sequence holds exactly one triple per pixel.
    pub open spec fn wf(self) -> bool {
        self.bytes.len() == self.width * self.height * 3
    }

    pub open spec fn in_bounds(self, x: int, y: int) -> bool {
        0 <= x < self.width && 0 <= y < self.height
    }

    /// Position of the red byte of pixel `(x, y)`.
    pub open spec fn offset(self, x: int, y: int) -> int {
        (y * self.width + x) * 3
    }

    pub open spec fn pixel(self, x: int, y: int) -> Rgb {
        let i = self.offset(x, y);
        Rgb { r: self.bytes[i], g: self.bytes[i + 1], b: self.bytes[i + 2] }
    }

    /// The grid with pixel `(x, y)` replaced by `p`.
    pub open spec fn with_pixel(self, x: int, y: int, p: Rgb) -> PixelGrid {
        let i = self.offset(x, y);
        PixelGrid { bytes: self.bytes.update(i, p.r).update(i + 1, p.g).update(i + 2, p.b), ..self }
    }

    /// The grid with one channel of pixel `(x, y)` replaced by `value`.
    pub open spec fn with_channel(self, x: int, y: int, channel: Channel, value: u8) -> PixelGrid {
        PixelGrid { bytes: self.bytes.update(self.offset(x, y) + channel.index(), value), ..self }
    }

    /// A grid of the given size in which every pixel is `color`.
    pub open spec fn uniform(width: nat, height: nat, color: Rgb) -> PixelGrid {
        PixelGrid {
            width,
            height,
            bytes: Seq::new(width * height * 3, |i: int| channel_value(color, i % 3)),
        }
    }
}

/// The three bytes of an in-bounds pixel lie inside the byte sequence.
pub proof fn lemma_offset_bounds(width: nat, height: nat, x: int, y: int)
    requires
        0 <= x < width,
        0 <= y < height,
    ensures
        0 <= (y * width + x) * 3,
        (y * width + x) * 3 + 3 <= width * height * 3,
        0 <= y * width + x < width * height,
{
    assert(0 <= y * width) by (nonlinear_arith)
        requires
            0 <= y,
            0 <= width,
    ;
    assert(y * width + width <= height * width) by (nonlinear_arith)
        requires
            y + 1 <= height,
            0 <= width,
    ;
    assert(height * width == width * height) by (nonlinear_arith);
}

/// A byte position inside the buffer falls into exactly one pixel: that of
/// column `(i / 3) % width` and row `(i / 3) / width`.
pub proof fn lemma_offset_inverse(width: nat, height: nat, i: int)
    requires
        0 <= i < width * height * 3,
    ensures
        width > 0,
        0 <= (i / 3) % (width as int) < width,
        0 <= (i / 3) / (width as int) < height,
        (((i / 3) / (width as int)) * width + (i / 3) % (width as int)) * 3 + i % 3 == i,
{
    if width == 0 {
        assert(width * height * 3 == 0) by (nonlinear_arith)
            requires
                width == 0,
        ;
    }
    let w = width as int;
    let k = i / 3;
    assert(0 <= k < width * height);
    vstd::arithmetic::div_mod::lemma_fundamental_div_mod(k, w);
    vstd::arithmetic::div_mod::lemma_div_pos_is_pos(k, w);
    assert(k / w < height) by (nonlinear_arith)
        requires
            0 <= k < w * height,
            w > 0,
            k == w * (k / w) + k % w,
            0 <= k % w,
    ;
    assert(w * (k / w) == (k / w) * w) by (nonlinear_arith);
}

/// Splitting a byte position into pixel and channel undoes `offset`.
pub proof fn lemma_offset_split(width: nat, height: nat, x: int, y: int, c: int)
    requires
        0 <= x < width,
        0 <= y < height,
        0 <= c < 3,
    ensures
        (((y * width + x) * 3 + c) / 3) % (width as int) == x,
        (((y * width + x) * 3 + c) / 3) / (width as int) == y,
        ((y * width + x) * 3 + c) % 3 == c,
        0 <= (y * width + x) * 3 + c < width * height * 3,
{
    lemma_offset_bounds(width, height, x, y);
    let k = y * width + x;
    vstd::arithmetic::div_mod::lemma_fundamental_div_mod_converse(k, width as int, y, x);
}

/// An owned RGB image of fixed size.
pub struct PixelBuffer {
    width: usize,
    height: usize,
    data: Vec<u8>,
}

impl View for PixelBuffer {
    type V = PixelGrid;

    closed spec fn view(&self) -> PixelGrid {
        PixelGrid { width: self.width as nat, height: self.height as nat, bytes: self.data@ }
    }
}

/// `width * height * 3` where that fits the machine's address range.
pub fn buffer_len(width: usize, height: usize) -> (len: Option<usize>)
    ensures
        len matches Some(n) ==> n == width * height * 3,
        len is None <==> width * height * 3 > usize::MAX,
{
    match width.checked_mul(height) {
        Some(area) => {
            let total = area.checked_mul(CHANNELS);
            assert(width * height * 3 == area * 3);
            total
        },
        None => {
            assert(width * height * 3 >= width * height) by (nonlinear_arith);
            None
        },
    }
}

impl PixelBuffer {
    /// The invariant of every buffer this library hands out.
    pub open spec fn wf(&self) -> bool {
        self@.wf()
    }

    /// A buffer of the given size with every pixel set to `color`.
    pub fn filled(width: usize, height: usize, color: Rgb) -> (buf: PixelBuffer)
        requires
            width * height * 3 <= usize::MAX,
        ensures
            buf.wf(),
            buf@ == PixelGrid::uniform(width as nat, height as nat, color),
    {
        assert(width * height <= width * height * 3) by (nonlinear_arith);
        let count: usize = width * height;
        let mut data: Vec<u8> = Vec::with_capacity(count * CHANNELS);
        let mut k: usize = 0;
        while k < count
            invariant
                k <= count,
                count * 3 <= usize::MAX,
                data@.len() == k * 3,
                forall|i: int| 0 <= i < data@.len() ==> data@[i] == channel_value(color, i % 3),
            decreases count - k,
        {
            data.push(color.r);
            data.push(color.g);
            data.push(color.b);
            k += 1;
        }
        let buf = PixelBuffer { width, height, data };
        assert(buf@.bytes =~= PixelGrid::uniform(width as nat, height as nat, color).bytes);
        buf
    }

    /// Wraps raw row-major RGB bytes; `None` unless there are exactly
    /// `width * height * 3` of them.
    pub fn from_raw(width: usize, height: usize, data: Vec<u8>) -> (out: Option<PixelBuffer>)
        ensures
            out is Some <==> data@.len() == width * height * 3,
            out matches Some(buf) ==> buf.wf() && buf@ == (PixelGrid {
                width: width as nat,
                height: height as nat,
                bytes: data@,
            }),
    {
        let given = data.len();
        match buffer_len(width, height) {
            Some(n) => {
                if given == n {
                    Some(PixelBuffer { width, height, data })
                } else {
                    None
                }
            },
            None => None,
        }
    }

    pub fn width(&self) -> (w: usize)
        ensures
            w == self@.width,
    {
        self.width
    }

    pub fn height(&self) -> (h: usize)
        ensures
            h == self@.height,
    {
        self.height
    }

    /// The raw bytes, row by row, three per pixel.
    pub fn as_bytes(&self) -> (bytes: &[u8])
        ensures
            bytes@ == self@.bytes,
    {
        self.data.as_slice()
    }

    /// Gives up the buffer for its raw bytes.
    pub fn into_raw(self) -> (bytes: Vec<u8>)
        ensures
            bytes@ == self@.bytes,
    {
        self.data
    }

    /// Position of the red byte of pixel `(x, y)` in the raw bytes.
    pub fn offset(&self, x: usize, y: usize) -> (i: usize)
        requires
            self.wf(),
            self@.in_bounds(x as int, y as int),
        ensures
            i == self@.offset(x as int, y as int),
            i + 3 <= self@.bytes.len() <= usize::MAX,
    {
        let len = self.data.len();
        proof {
            lemma_offset_bounds(self.width as nat, self.height as nat, x as int, y as int);
            assert(len == self.width * self.height * 3);
        }
        (y * self.width + x) * CHANNELS
    }

    /// The pixel at `(x, y)`.
    pub fn pixel_at(&self, x: usize, y: usize) -> (p: Rgb)
        requires
            self.wf(),
            self@.in_bounds(x as int, y as int),
        ensures
            p == self@.pixel(x as int, y as int),
    {
        let i = self.offset(x, y);
        Rgb { r: self.data[i], g: self.data[i + 1], b: self.data[i + 2] }
    }

    /// Replaces the pixel at `(x, y)`.
    pub fn set_pixel_at(&mut self, x: usize, y: usize, p: Rgb)
        requires
            old(self).wf(),
            old(self)@.in_bounds(x as int, y as int),
        ensures
            final(self).wf(),
            final(self)@ == old(self)@.with_pixel(x as int, y as int, p),
    {
        let i = self.offset(x, y);
        self.data[i] = p.r;
        self.data[i + 1] = p.g;
        self.data[i + 2] = p.b;
    }

    /// Replaces one channel of the pixel at `(x, y)` and leaves the other two.
    pub fn set_channel_at(&mut self, x: usize, y: usize, channel: Channel, value: u8)
        requires
            old(self).wf(),
            old(self)@.in_bounds(x as int, y as int),
        ensures
            final(self).wf(),
            final(self)@ == old(self)@.with_channel(x as int, y as int, channel, value),
    {
        let i = self.offset(x, y) + channel.position();
        self.data[i] = value;
    }

    /// The pixel at `(x, y)`, or `None` outside the buffer.
    pub fn get_pixel(&self, x: usize, y: usize) -> (p: Option<Rgb>)
        requires
            self.wf(),
        ensures
            p == if self@.in_bounds(x as int, y as int) {
                Some(self@.pixel(x as int, y as int))
            } else {
                None
            },
    {
        if x < self.width && y < self.height {
            Some(self.pixel_at(x, y))
        } else {
            None
        }
    }
}

} // verus!
