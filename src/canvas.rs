use pixels::{Pixels, SurfaceTexture};
use vstd::prelude::*;
use winit::window::Window;

verus! {

#[verifier::external_type_specification]
#[verifier::external_body]
pub struct ExPixels(pixels::Pixels);

#[verifier::external_type_specification]
#[verifier::external_body]
pub struct ExPixelsError(pixels::Error);

#[verifier::external_type_specification]
#[verifier::external_body]
pub struct ExWindow(winit::window::Window);

/// The largest canvas width or height: the texture size that every graphics
/// adapter supports, downlevel ones included.
pub const MAX_DIMENSION: u32 = 2048;

/// The bytes of a pixel surface's frame buffer, four (RGBA) per pixel, row by row.
pub uninterp spec fn frame_of(p: Pixels) -> Seq<u8>;

/// A frame of `width` by `height` pixels, every byte zero.
pub open spec fn blank_frame(width: int, height: int) -> Seq<u8> {
    Seq::new((4 * width * height) as nat, |i: int| 0u8)
}

/// Relies on `SurfaceTexture::new` and `Pixels::new`: a pixel buffer of
/// `width` by `height` drawn onto the window's surface, in the default
/// four-byte RGBA format, its frame filled with zeros. Both panic on a zero
/// dimension, and the graphics device on a texture larger than the adapter
/// supports; `Pixels::new` fails where no graphics adapter is found.
#[verifier::external_body]
fn new_pixels(window: &Window, width: u32, height: u32) -> (r: Result<Pixels, pixels::Error>)
    requires
        0 < width <= MAX_DIMENSION,
        0 < height <= MAX_DIMENSION,
    ensures
        r matches Ok(p) ==> frame_of(p) == blank_frame(width as int, height as int),
{
    Pixels::new(width, height, SurfaceTexture::new(width, height, window))
}

/// Relies on `Pixels::get_frame`: the length of the frame buffer.
#[verifier::external_body]
fn frame_len(p: &Pixels) -> (r: usize)
    ensures
        r == frame_of(*p).len(),
{
    p.get_frame().len()
}

/// Relies on `Pixels::get_frame_mut`: the frame buffer itself, here written
/// at `offset..offset + 4` and left as it was elsewhere.
#[verifier::external_body]
fn write_frame(p: &mut Pixels, offset: usize, rgba: [u8; 4])
    requires
        offset + 4 <= frame_of(*old(p)).len(),
    ensures
        frame_of(*final(p)) == frame_of(*old(p)).take(offset as int) + rgba@ + frame_of(*old(p)).skip(
            offset + 4,
        ),
{
    p.get_frame_mut()[offset..offset + 4].copy_from_slice(&rgba);
}

/// Relies on `Pixels::render`: draws the frame buffer onto the surface.
#[verifier::external_body]
fn render_pixels(p: &Pixels) -> (r: Result<(), pixels::Error>) {
    p.render()
}

/// Column and row, from the top-left corner, of the pixel at `(x, y)` on a
/// `width` by `height` canvas whose origin is its centre with `+y` up; none
/// where the pixel lies outside the canvas.
pub open spec fn cell_of(width: int, height: int, x: int, y: int) -> Option<(int, int)> {
    let col = width / 2 + x;
    let row = height / 2 - y - 1;
    if 0 <= col < width && 0 <= row < height {
        Some((col, row))
    } else {
        None
    }
}

/// `frame` after pixel `pos` is set to `color`, fully opaque: four bytes at
/// `4 * (width * row + col)`. A pixel outside the canvas, or beyond the end of
/// the frame, leaves it as it was.
pub open spec fn painted(frame: Seq<u8>, width: int, height: int, pos: (i32, i32), color: (u8, u8, u8)) -> Seq<u8> {
    match cell_of(width, height, pos.0 as int, pos.1 as int) {
        Some((col, row)) => {
            let o = 4 * (width * row + col);
            if o + 4 <= frame.len() {
                frame.take(o) + seq![color.0, color.1, color.2, 255u8] + frame.skip(o + 4)
            } else {
                frame
            }
        },
        None => frame,
    }
}

/// On a frame of `4 * width * height` bytes, setting a pixel that lies on the
/// canvas always writes its four bytes: none is dropped for want of room.
pub proof fn lemma_painted_on_full_frame(
    frame: Seq<u8>,
    width: int,
    height: int,
    pos: (i32, i32),
    color: (u8, u8, u8),
    col: int,
    row: int,
)
    requires
        width > 0,
        height > 0,
        frame.len() == 4 * width * height,
        cell_of(width, height, pos.0 as int, pos.1 as int) == Some((col, row)),
    ensures
        painted(frame, width, height, pos, color) == frame.take(4 * (width * row + col)) + seq![
            color.0,
            color.1,
            color.2,
            255u8,
        ] + frame.skip(4 * (width * row + col) + 4),
        painted(frame, width, height, pos, color).len() == frame.len(),
{
    assert(4 * (width * row + col) + 4 <= 4 * width * height) by (nonlinear_arith)
        requires
            0 <= col < width,
            0 <= row < height,
    ;
}

/// Column and row in the buffer of the canvas pixel `pos`, or none where it
/// lies outside the canvas.
pub fn buffer_cell(width: u32, height: u32, pos: (i32, i32)) -> (r: Option<(u32, u32)>)
    ensures
        match cell_of(width as int, height as int, pos.0 as int, pos.1 as int) {
            None => r is None,
            Some((col, row)) => r matches Some((c, w)) && c == col && w == row,
        },
{
    let col: i64 = (width / 2) as i64 + pos.0 as i64;
    let row: i64 = (height / 2) as i64 - pos.1 as i64 - 1;
    if 0 <= col && col < width as i64 && 0 <= row && row < height as i64 {
        Some((col as u32, row as u32))
    } else {
        None
    }
}

/// A pixel surface with the dimensions it was made with.
pub struct Canvas {
    pixels: Pixels,
    pub width: u32,
    pub height: u32,
}

impl Canvas {
    /// The bytes of the frame buffer.
    pub closed spec fn frame(&self) -> Seq<u8> {
        frame_of(self.pixels)
    }

    /// The value of the public field `width`.
    pub closed spec fn spec_width(&self) -> u32 {
        self.width
    }

    /// The value of the public field `height`.
    pub closed spec fn spec_height(&self) -> u32 {
        self.height
    }

    /// A canvas of `width` by `height` pixels on the window, every byte of its
    /// frame zero.
    pub fn new(window: &Window, width: u32, height: u32) -> (r: Result<Canvas, pixels::Error>)
        requires
            0 < width <= MAX_DIMENSION,
            0 < height <= MAX_DIMENSION,
        ensures
            r matches Ok(c) ==> c.spec_width() == width && c.spec_height() == height && c.frame()
                == blank_frame(width as int, height as int),
    {
        let pixels = match new_pixels(window, width, height) {
            Ok(p) => p,
            Err(e) => return Err(e),
        };
        Ok(Canvas { pixels, width, height })
    }

    pub fn width(&self) -> (r: u32)
        ensures
            r == self.spec_width(),
    {
        self.width
    }

    pub fn height(&self) -> (r: u32)
        ensures
            r == self.spec_height(),
    {
        self.height
    }

    /// Sets the pixel at `pos` (origin at the centre, `+y` up) to `color`;
    /// a pixel outside the canvas is left out silently.
    pub fn put_pixel(&mut self, pos: (i32, i32), color: (u8, u8, u8))
        ensures
            final(self).spec_width() == old(self).spec_width(),
            final(self).spec_height() == old(self).spec_height(),
            final(self).frame().len() == old(self).frame().len(),
            final(self).frame() == painted(
                old(self).frame(),
                old(self).spec_width() as int,
                old(self).spec_height() as int,
                pos,
                color,
            ),
    {
        let (col, row) = match buffer_cell(self.width, self.height, pos) {
            Some(cell) => cell,
            None => return,
        };
        let w = self.width;
        assert((w as u128) * (row as u128) < 0x1_0000_0000_0000_0000u128) by (nonlinear_arith)
            requires
                w <= 0xffff_ffffu32,
                row <= 0xffff_ffffu32,
        ;
        let o: u128 = 4 * ((w as u128) * (row as u128) + col as u128);
        let len = frame_len(&self.pixels);
        if o + 4 <= len as u128 {
            let (r, g, b) = color;
            let rgba: [u8; 4] = [r, g, b, 255u8];
            assert(rgba@ =~= seq![r, g, b, 255u8]);
            write_frame(&mut self.pixels, o as usize, rgba);
        }
    }

    /// Draws the frame buffer onto the window.
    pub fn update(&mut self) -> (r: Result<(), pixels::Error>)
        ensures
            final(self).frame() == old(self).frame(),
            final(self).spec_width() == old(self).spec_width(),
            final(self).spec_height() == old(self).spec_height(),
    {
        render_pixels(&self.pixels)
    }
}

} // verus!
