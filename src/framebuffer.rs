//! A tri-color framebuffer made of two bit planes, one bit per pixel.
//!
//! The black plane holds 0 where a pixel is black, the chromatic plane holds
//! 0 where a pixel is chromatic, and both hold 1 where a pixel is white.
//! Bits are packed most significant first: the pixel at bit index `i` lives
//! in byte `i / 8`, at bit `7 - i % 8`.
use vstd::prelude::*;

verus! {

/// A tri-color
#[derive(Copy, Clone, Debug, PartialEq, Eq, Structural)]
pub enum Color {
    /// Black
    Black,
    /// Chromatic
    Chromatic,
    /// White
    White,
    /// Transparent: drawing it leaves the pixel as it was
    Transparent,
}

impl Color {
    /// The color encoded by a raw two-bit pixel value
    pub fn from_raw(raw: u8) -> (r: Color)
        ensures
            r == color_of_raw(raw),
    {
        match raw {
            0 => Color::Black,
            1 => Color::White,
            2 => Color::Chromatic,
            _ => Color::Transparent,
        }
    }

    /// The color of a binary pixel: on is black, off is white
    pub fn from_binary(on: bool) -> (r: Color)
        ensures
            r == (if on {
                Color::Black
            } else {
                Color::White
            }),
    {
        if on {
            Color::Black
        } else {
            Color::White
        }
    }

    /// Red, green and blue components of the color
    pub fn to_rgb(self) -> (r: (u8, u8, u8))
        ensures
            r == rgb_of(self),
    {
        match self {
            Color::Black => (0, 0, 0),
            Color::Chromatic => (255, 0, 0),
            Color::White => (255, 255, 255),
            Color::Transparent => (0, 255, 0),
        }
    }
}

/// The color encoded by a raw two-bit pixel value; values above two are
/// transparent
pub open spec fn color_of_raw(raw: u8) -> Color {
    if raw == 0 {
        Color::Black
    } else if raw == 1 {
        Color::White
    } else if raw == 2 {
        Color::Chromatic
    } else {
        Color::Transparent
    }
}

/// Red, green and blue components of a color
pub open spec fn rgb_of(c: Color) -> (u8, u8, u8) {
    match c {
        Color::Black => (0, 0, 0),
        Color::Chromatic => (255, 0, 0),
        Color::White => (255, 255, 255),
        Color::Transparent => (0, 255, 0),
    }
}

/// A screen rotation
#[derive(Copy, Clone, Debug, PartialEq, Eq, Structural)]
pub enum Rotation {
    /// No rotation
    Rotate0,
    /// Clockwise rotation of 90 degrees
    Rotate90,
    /// Clockwise rotation of 180 degrees
    Rotate180,
    /// Clockwise rotation of 270 degrees
    Rotate270,
}

/// Width and height of the drawing area as seen through a rotation
pub open spec fn logical_size(rotation: Rotation, width: int, height: int) -> (int, int) {
    match rotation {
        Rotation::Rotate0 | Rotation::Rotate180 => (width, height),
        Rotation::Rotate90 | Rotation::Rotate270 => (height, width),
    }
}

/// Panel coordinates of a point given in rotated coordinates, if the point
/// lies on the panel
pub open spec fn panel_point(rotation: Rotation, x: int, y: int, width: int, height: int) -> Option<
    (int, int),
> {
    let (lw, lh) = logical_size(rotation, width, height);
    if x < 0 || y < 0 || x >= lw || y >= lh {
        None
    } else {
        match rotation {
            Rotation::Rotate0 => Some((x, y)),
            Rotation::Rotate90 => Some((width - 1 - y, x)),
            Rotation::Rotate180 => Some((width - 1 - x, height - 1 - y)),
            Rotation::Rotate270 => Some((y, height - 1 - x)),
        }
    }
}

/// Bytes per row of a panel `width` pixels wide: each row starts on a byte
pub open spec fn row_bytes(width: int) -> int {
    (width + 7) / 8
}

/// Bit index of a panel pixel, row by row, each row padded to whole bytes
pub open spec fn bit_index(x: int, y: int, width: int) -> int {
    y * (8 * row_bytes(width)) + x
}

/// Mask that selects the bit at `offset` within a byte, most significant first
pub open spec fn bit_mask(offset: int) -> u8 {
    (1u8 << ((7 - offset) as u8))
}

/// The black plane after painting the pixel at `bit`
pub open spec fn paint_black(plane: Seq<u8>, bit: int, color: Color) -> Seq<u8> {
    let i = bit / 8;
    let m = bit_mask(bit % 8);
    match color {
        Color::Black => plane.update(i, plane[i] & !m),
        Color::White => plane.update(i, plane[i] | m),
        _ => plane,
    }
}

/// The chromatic plane after painting the pixel at `bit`
pub open spec fn paint_chromatic(plane: Seq<u8>, bit: int, color: Color) -> Seq<u8> {
    let i = bit / 8;
    let m = bit_mask(bit % 8);
    match color {
        Color::Chromatic => plane.update(i, plane[i] & !m),
        Color::White => plane.update(i, plane[i] | m),
        _ => plane,
    }
}

/// The two planes after drawing one pixel given in rotated coordinates;
/// pixels off the panel, or beyond the planes' bytes, are ignored
pub open spec fn painted(
    planes: (Seq<u8>, Seq<u8>),
    rotation: Rotation,
    x: int,
    y: int,
    color: Color,
    width: int,
    height: int,
) -> (Seq<u8>, Seq<u8>) {
    match panel_point(rotation, x, y, width, height) {
        Some((px, py)) => {
            let bit = bit_index(px, py, width);
            if bit / 8 < planes.0.len() && bit / 8 < planes.1.len() {
                (paint_black(planes.0, bit, color), paint_chromatic(planes.1, bit, color))
            } else {
                planes
            }
        },
        None => planes,
    }
}

/// The two planes after drawing a sequence of pixels in order
pub open spec fn painted_all(
    planes: (Seq<u8>, Seq<u8>),
    rotation: Rotation,
    pixels: Seq<(i32, i32, Color)>,
    width: int,
    height: int,
) -> (Seq<u8>, Seq<u8>)
    decreases pixels.len(),
{
    if pixels.len() == 0 {
        planes
    } else {
        let last = pixels.last();
        painted(
            painted_all(planes, rotation, pixels.drop_last(), width, height),
            rotation,
            last.0 as int,
            last.1 as int,
            last.2,
            width,
            height,
        )
    }
}

/// A buffer to draw tri-color graphics
///
/// `WIDTH` and `HEIGHT` are the panel's width and height in pixels, while
/// `BYTE_SIZE` is the size of each plane in bytes: `ceil(width / 8)` bytes
/// per row, times the height.
#[derive(Debug)]
pub struct Buffer<const WIDTH: usize, const HEIGHT: usize, const BYTE_SIZE: usize> {
    /// Buffer rotation
    rotation: Rotation,
    /// Black plane
    black: [u8; BYTE_SIZE],
    /// Chromatic plane
    chromatic: [u8; BYTE_SIZE],
}

/// A buffer sized for 1.54 inch panels
pub type Epd1in54Buffer = Buffer<200, 200, 5000>;

impl<const WIDTH: usize, const HEIGHT: usize, const BYTE_SIZE: usize> Buffer<
    WIDTH,
    HEIGHT,
    BYTE_SIZE,
> {
    /// Contents of the black plane
    pub closed spec fn black_plane(&self) -> Seq<u8> {
        self.black@
    }

    /// Contents of the chromatic plane
    pub closed spec fn chromatic_plane(&self) -> Seq<u8> {
        self.chromatic@
    }

    /// Both planes, black first
    pub open spec fn planes(&self) -> (Seq<u8>, Seq<u8>) {
        (self.black_plane(), self.chromatic_plane())
    }

    /// Current rotation
    pub closed spec fn rotation_spec(&self) -> Rotation {
        self.rotation
    }

    /// Panel dimensions whose pixel indices fit in a `usize` and whose
    /// coordinates fit in an `i32`
    pub open spec fn dimensions_fit() -> bool {
        &&& WIDTH <= i32::MAX
        &&& HEIGHT <= i32::MAX
        &&& 8 * row_bytes(WIDTH as int) * HEIGHT <= usize::MAX
    }

    /// Create a new buffer, all white, without rotation
    pub fn new() -> (r: Self)
        ensures
            r.rotation_spec() == Rotation::Rotate0,
            r.black_plane() == Seq::new(BYTE_SIZE as nat, |i: int| 255u8),
            r.chromatic_plane() == Seq::new(BYTE_SIZE as nat, |i: int| 255u8),
    {
        let r = Self { rotation: Rotation::Rotate0, black: [255u8; BYTE_SIZE], chromatic: [255u8; BYTE_SIZE] };
        assert(r.black@ =~= Seq::new(BYTE_SIZE as nat, |i: int| 255u8));
        assert(r.chromatic@ =~= Seq::new(BYTE_SIZE as nat, |i: int| 255u8));
        r
    }

    /// Get the black plane
    pub fn black_buffer(&self) -> (r: &[u8])
        ensures
            r@ == self.black_plane(),
    {
        self.black.as_slice()
    }

    /// Get the chromatic plane
    pub fn chromatic_buffer(&self) -> (r: &[u8])
        ensures
            r@ == self.chromatic_plane(),
    {
        self.chromatic.as_slice()
    }

    /// Set screen rotation
    pub fn set_rotation(&mut self, rotation: Rotation)
        ensures
            final(self).rotation_spec() == rotation,
            final(self).planes() == old(self).planes(),
    {
        self.rotation = rotation;
    }

    /// Width and height of the drawing area under the current rotation
    pub fn size(&self) -> (r: (usize, usize))
        ensures
            r.0 as int == logical_size(self.rotation_spec(), WIDTH as int, HEIGHT as int).0,
            r.1 as int == logical_size(self.rotation_spec(), WIDTH as int, HEIGHT as int).1,
    {
        match self.rotation {
            Rotation::Rotate0 | Rotation::Rotate180 => (WIDTH, HEIGHT),
            Rotation::Rotate90 | Rotation::Rotate270 => (HEIGHT, WIDTH),
        }
    }

    /// Panel coordinates of a point given in rotated coordinates, if the
    /// point lies on the panel
    pub open spec fn panel_point_of(&self, x: int, y: int) -> Option<(int, int)> {
        panel_point(self.rotation_spec(), x, y, WIDTH as int, HEIGHT as int)
    }

    /// Panel coordinates of a point given in rotated coordinates
    fn panel_coordinates(&self, x: i32, y: i32) -> (r: Option<(usize, usize)>)
        requires
            Self::dimensions_fit(),
        ensures
            r is Some == self.panel_point_of(x as int, y as int) is Some,
            r matches Some(p) ==> (self.panel_point_of(x as int, y as int) == Some((p.0 as int, p.1 as int))
                && p.0 < WIDTH && p.1 < HEIGHT),
    {
        if x < 0 || y < 0 {
            return None;
        }
        let ux = x as usize;
        let uy = y as usize;
        match self.rotation {
            Rotation::Rotate0 => {
                if ux < WIDTH && uy < HEIGHT {
                    Some((ux, uy))
                } else {
                    None
                }
            },
            Rotation::Rotate90 => {
                if ux < HEIGHT && uy < WIDTH {
                    Some((WIDTH - 1 - uy, ux))
                } else {
                    None
                }
            },
            Rotation::Rotate180 => {
                if ux < WIDTH && uy < HEIGHT {
                    Some((WIDTH - 1 - ux, HEIGHT - 1 - uy))
                } else {
                    None
                }
            },
            Rotation::Rotate270 => {
                if ux < HEIGHT && uy < WIDTH {
                    Some((uy, HEIGHT - 1 - ux))
                } else {
                    None
                }
            },
        }
    }

    /// Draw one pixel given in rotated coordinates; pixels off the panel are
    /// ignored, as is a transparent color
    pub fn draw_pixel(&mut self, x: i32, y: i32, color: Color)
        requires
            Self::dimensions_fit(),
        ensures
            final(self).rotation_spec() == old(self).rotation_spec(),
            final(self).planes() == painted(
                old(self).planes(),
                old(self).rotation_spec(),
                x as int,
                y as int,
                color,
                WIDTH as int,
                HEIGHT as int,
            ),
    {
        if let Some((px, py)) = self.panel_coordinates(x, y) {
            proof {
                let stride = 8 * row_bytes(WIDTH as int);
                assert(stride >= WIDTH);
                assert(py * stride + px < stride * HEIGHT) by (nonlinear_arith)
                    requires
                        px < WIDTH,
                        WIDTH <= stride,
                        py < HEIGHT,
                ;
                assert((px as i32) as int == px as int);
                assert((py as i32) as int == py as int);
            }
            let (index, offset) = get_index_and_offset::<WIDTH>(px as i32, py as i32);
            if index < BYTE_SIZE {
                let mask: u8 = 1u8 << ((7 - offset) as u8);
                match color {
                    Color::Black => {
                        let byte = self.black[index];
                        self.black[index] = byte & !mask;
                    },
                    Color::Chromatic => {
                        let byte = self.chromatic[index];
                        self.chromatic[index] = byte & !mask;
                    },
                    Color::White => {
                        let byte = self.black[index];
                        self.black[index] = byte | mask;
                        let byte = self.chromatic[index];
                        self.chromatic[index] = byte | mask;
                    },
                    Color::Transparent => {},
                }
                assert(self.black@ =~= paint_black(old(self).black@, bit_index(px as int, py as int, WIDTH as int), color));
                assert(self.chromatic@ =~= paint_chromatic(
                    old(self).chromatic@,
                    bit_index(px as int, py as int, WIDTH as int),
                    color,
                ));
            }
        }
    }

    /// Draw pixels in order, each given in rotated coordinates
    pub fn draw_pixels(&mut self, pixels: &[(i32, i32, Color)])
        requires
            Self::dimensions_fit(),
        ensures
            final(self).rotation_spec() == old(self).rotation_spec(),
            final(self).planes() == painted_all(
                old(self).planes(),
                old(self).rotation_spec(),
                pixels@,
                WIDTH as int,
                HEIGHT as int,
            ),
    {
        let n = pixels.len();
        let mut i: usize = 0;
        while i < n
            invariant
                n == pixels@.len(),
                i <= n,
                Self::dimensions_fit(),
                self.rotation_spec() == old(self).rotation_spec(),
                self.planes() == painted_all(
                    old(self).planes(),
                    old(self).rotation_spec(),
                    pixels@.subrange(0, i as int),
                    WIDTH as int,
                    HEIGHT as int,
                ),
            decreases n - i,
        {
            let (x, y, color) = pixels[i];
            self.draw_pixel(x, y, color);
            proof {
                let next = pixels@.subrange(0, i + 1);
                assert(next.drop_last() =~= pixels@.subrange(0, i as int));
                assert(next.last() == pixels@[i as int]);
            }
            i = i + 1;
        }
        assert(pixels@.subrange(0, n as int) =~= pixels@);
    }
}

impl<const WIDTH: usize, const HEIGHT: usize, const BYTE_SIZE: usize> Default for Buffer<
    WIDTH,
    HEIGHT,
    BYTE_SIZE,
> {
    fn default() -> (r: Self)
        ensures
            r.rotation_spec() == Rotation::Rotate0,
            r.black_plane() == Seq::new(BYTE_SIZE as nat, |i: int| 255u8),
            r.chromatic_plane() == Seq::new(BYTE_SIZE as nat, |i: int| 255u8),
    {
        Self::new()
    }
}

/// Byte index and bit offset of a panel pixel
pub fn get_index_and_offset<const WIDTH: usize>(x: i32, y: i32) -> (r: (usize, usize))
    requires
        x >= 0,
        y >= 0,
        WIDTH + 7 <= usize::MAX,
        bit_index(x as int, y as int, WIDTH as int) <= usize::MAX,
    ensures
        r.0 == bit_index(x as int, y as int, WIDTH as int) / 8,
        r.1 == bit_index(x as int, y as int, WIDTH as int) % 8,
{
    let bit_index = get_bit_index::<WIDTH>(x, y);
    get_index_and_offset_from_bit_index(bit_index)
}

/// Bit index of a panel pixel, row by row
pub fn get_bit_index<const WIDTH: usize>(x: i32, y: i32) -> (r: usize)
    requires
        x >= 0,
        y >= 0,
        WIDTH + 7 <= usize::MAX,
        bit_index(x as int, y as int, WIDTH as int) <= usize::MAX,
    ensures
        r == bit_index(x as int, y as int, WIDTH as int),
{
    let stride: usize = (WIDTH + 7) / 8 * 8;
    assert(stride == 8 * row_bytes(WIDTH as int));
    proof {
        assert(0 <= y * stride) by (nonlinear_arith)
            requires
                y >= 0,
                stride >= 0,
        ;
    }
    x as usize + y as usize * stride
}

/// Byte index and bit offset of a bit index
pub fn get_index_and_offset_from_bit_index(bit_index: usize) -> (r: (usize, usize))
    ensures
        r.0 == bit_index / 8,
        r.1 == bit_index % 8,
{
    let index = bit_index >> 3usize;
    let offset = bit_index & 0b0000_0111usize;
    assert(bit_index >> 3usize == bit_index / 8) by (bit_vector);
    assert(bit_index & 7usize == bit_index % 8) by (bit_vector);
    (index, offset)
}

/// Drawing a pixel on the panel touches one bit of one byte, at the pixel's
/// byte index and bit offset: black clears that bit in the black plane and
/// leaves the chromatic plane as it was, chromatic clears it in the chromatic
/// plane and leaves the black plane as it was, and white sets it in both.
/// The other bits of the byte keep their values.
pub proof fn lemma_pixel_encoding(
    planes: (Seq<u8>, Seq<u8>),
    rotation: Rotation,
    x: int,
    y: int,
    color: Color,
    width: int,
    height: int,
)
    requires
        panel_point(rotation, x, y, width, height) is Some,
        ({
            let p = panel_point(rotation, x, y, width, height)->0;
            &&& bit_index(p.0, p.1, width) / 8 < planes.0.len()
            &&& bit_index(p.0, p.1, width) / 8 < planes.1.len()
        }),
    ensures
        ({
            let p = panel_point(rotation, x, y, width, height)->0;
            let bit = bit_index(p.0, p.1, width);
            let i = bit / 8;
            let m = bit_mask(bit % 8);
            let after = painted(planes, rotation, x, y, color, width, height);
            &&& m == (1u8 << ((7 - bit % 8) as u8))
            &&& after.0.len() == planes.0.len()
            &&& after.1.len() == planes.1.len()
            &&& forall|j: int| 0 <= j < after.0.len() && j != i ==> after.0[j] == planes.0[j]
            &&& forall|j: int| 0 <= j < after.1.len() && j != i ==> after.1[j] == planes.1[j]
            &&& after.0[i] & !m == planes.0[i] & !m
            &&& after.1[i] & !m == planes.1[i] & !m
            &&& color == Color::Black ==> after.0[i] & m == 0 && after.1 == planes.1
            &&& color == Color::Chromatic ==> after.1[i] & m == 0 && after.0 == planes.0
            &&& color == Color::White ==> after.0[i] & m == m && after.1[i] & m == m
            &&& color == Color::Transparent ==> after == planes
        }),
{
    let p = panel_point(rotation, x, y, width, height)->0;
    let bit = bit_index(p.0, p.1, width);
    let i = bit / 8;
    let m = bit_mask(bit % 8);
    let b = planes.0[i];
    let c = planes.1[i];
    assert((b & !m) & !m == b & !m) by (bit_vector);
    assert((b | m) & !m == b & !m) by (bit_vector);
    assert((c & !m) & !m == c & !m) by (bit_vector);
    assert((c | m) & !m == c & !m) by (bit_vector);
    assert((b & !m) & m == 0) by (bit_vector);
    assert((c & !m) & m == 0) by (bit_vector);
    assert((b | m) & m == m) by (bit_vector);
    assert((c | m) & m == m) by (bit_vector);
}

} // verus!
