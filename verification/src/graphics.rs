//! Pixel writers for 32-bit frame buffers.
//!
//! A writer computes where a pixel lies and which three bytes go there; the
//! store into the frame buffer is left to the caller.
use vstd::prelude::*;
use crate::boot_info::{ModeInfo, PixelFormat};
use vstd::arithmetic::div_mod::{
    lemma_fundamental_div_mod_converse_div,
    lemma_fundamental_div_mod_converse_mod,
};

verus! {

/// The address of pixel (`x`, `y`): four bytes per pixel, `pixels_per_scan_line`
/// pixels per line, counted from the frame buffer address cut to 32 bits.
pub open spec fn pixel_address_spec(frame_buffer: usize, pixels_per_scan_line: u32, x: u32, y: u32) -> int {
    (frame_buffer as u32) + 4 * (pixels_per_scan_line * y + x)
}

/// The pixel address can be computed in 32-bit arithmetic.
pub open spec fn pixel_address_fits(frame_buffer: usize, pixels_per_scan_line: u32, x: u32, y: u32) -> bool {
    pixel_address_spec(frame_buffer, pixels_per_scan_line, x, y) <= u32::MAX
}

pub struct PixcelColor {
    pub r: u8,
    pub g: u8,
    pub b: u8,
}

/// A store of three colour bytes at an address of the frame buffer.
#[derive(Debug, Copy, Clone, PartialEq, Eq)]
pub struct PixelWrite {
    pub address: u32,
    pub bytes: [u8; 3],
}

pub struct FrameBufferConfig {
    frame_buffer: usize,
    pixels_per_scan_line: u32,
    horizontal_resolution: u32,
    vertical_resolution: u32,
    pixel_format: PixelFormat,
}

impl FrameBufferConfig {
    pub closed spec fn frame_buffer_spec(self) -> usize {
        self.frame_buffer
    }

    pub closed spec fn pixels_per_scan_line_spec(self) -> u32 {
        self.pixels_per_scan_line
    }

    pub closed spec fn horizontal_resolution_spec(self) -> u32 {
        self.horizontal_resolution
    }

    pub closed spec fn vertical_resolution_spec(self) -> u32 {
        self.vertical_resolution
    }

    pub closed spec fn pixel_format_spec(self) -> PixelFormat {
        self.pixel_format
    }

    /// The configuration of a frame buffer; the size is not kept and the pixel
    /// format is always RGB.
    fn new(buf: usize, size: u32, hor_res: u32, ver_res: u32, ppsl: u32) -> (config: Self)
        ensures
            config.frame_buffer_spec() == buf,
            config.pixels_per_scan_line_spec() == ppsl,
            config.horizontal_resolution_spec() == hor_res,
            config.vertical_resolution_spec() == ver_res,
            config.pixel_format_spec() == PixelFormat::Rgb,
    {
        FrameBufferConfig {
            frame_buffer: buf,
            pixels_per_scan_line: ppsl,
            horizontal_resolution: hor_res,
            vertical_resolution: ver_res,
            pixel_format: PixelFormat::Rgb,
        }
    }

    /// The pixel at (`x`, `y`) lies within 32-bit addresses.
    pub closed spec fn pixel_fits(self, x: u32, y: u32) -> bool {
        pixel_address_fits(self.frame_buffer, self.pixels_per_scan_line, x, y)
    }

    /// The address of the pixel at (`x`, `y`).
    pub closed spec fn pixel_address(self, x: u32, y: u32) -> int {
        pixel_address_spec(self.frame_buffer, self.pixels_per_scan_line, x, y)
    }

    /// Where a pixel goes depends on the frame buffer address and the pixels
    /// per scan line alone (not on the resolutions, the size or the format):
    /// four bytes per pixel from the address cut to 32 bits.
    pub proof fn lemma_pixel_address(self, x: u32, y: u32)
        ensures
            self.pixel_address(x, y) == pixel_address_spec(
                self.frame_buffer_spec(),
                self.pixels_per_scan_line_spec(),
                x,
                y,
            ),
            self.pixel_fits(x, y) == pixel_address_fits(
                self.frame_buffer_spec(),
                self.pixels_per_scan_line_spec(),
                x,
                y,
            ),
    {
    }
}

pub trait PixelWriter {
    /// The frame buffer the writer draws into.
    spec fn frame_config(&self) -> FrameBufferConfig;

    /// The store that paints pixel (`x`, `y`) in colour `c`.
    fn write(&self, x: u32, y: u32, c: &PixcelColor) -> (w: PixelWrite)
        requires
            self.frame_config().pixel_fits(x, y),
        ensures
            w.address == self.frame_config().pixel_address(x, y),
    ;

    /// The address of pixel (`x`, `y`) of `config`.
    fn pixel_at(config: &FrameBufferConfig, x: u32, y: u32) -> (address: u32)
        requires
            config.pixel_fits(x, y),
        ensures
            address == config.pixel_address(x, y),
    {
        proof {
            assert(0 <= config.pixels_per_scan_line * y <= u32::MAX) by (nonlinear_arith)
                requires
                    (config.frame_buffer as u32) + 4 * (config.pixels_per_scan_line * y + x)
                        <= u32::MAX,
            ;
        }
        (config.frame_buffer as u32) + 4 * (config.pixels_per_scan_line * y + x)
    }
}

/// Writes pixels as blue, green, red bytes.
pub struct BGRResv8BitPerColorPixelWriter {
    config_: FrameBufferConfig,
}

impl BGRResv8BitPerColorPixelWriter {
    pub fn new(buf: usize, size: u32, hor_res: u32, ver_res: u32, ppsl: u32) -> (w: Self)
        ensures
            w.frame_config().frame_buffer_spec() == buf,
            w.frame_config().pixels_per_scan_line_spec() == ppsl,
            w.frame_config().horizontal_resolution_spec() == hor_res,
            w.frame_config().vertical_resolution_spec() == ver_res,
            w.frame_config().pixel_format_spec() == PixelFormat::Rgb,
    {
        Self { config_: FrameBufferConfig::new(buf, size, hor_res, ver_res, ppsl) }
    }
}

impl PixelWriter for BGRResv8BitPerColorPixelWriter {
    closed spec fn frame_config(&self) -> FrameBufferConfig {
        self.config_
    }

    fn write(&self, x: u32, y: u32, c: &PixcelColor) -> (w: PixelWrite)
        ensures
            w.bytes@ == seq![c.b, c.g, c.r],
    {
        let p = Self::pixel_at(&self.config_, x, y);
        let w = PixelWrite { address: p, bytes: [c.b, c.g, c.r] };
        assert(w.bytes@ =~= seq![c.b, c.g, c.r]);
        w
    }
}

/// Writes pixels as red, green, blue bytes.
pub struct RGBResv8BitPerColorPixelWriter {
    config_: FrameBufferConfig,
}

impl RGBResv8BitPerColorPixelWriter {
    pub fn new(buf: usize, size: u32, hor_res: u32, ver_res: u32, ppsl: u32) -> (w: Self)
        ensures
            w.frame_config().frame_buffer_spec() == buf,
            w.frame_config().pixels_per_scan_line_spec() == ppsl,
            w.frame_config().horizontal_resolution_spec() == hor_res,
            w.frame_config().vertical_resolution_spec() == ver_res,
            w.frame_config().pixel_format_spec() == PixelFormat::Rgb,
    {
        Self { config_: FrameBufferConfig::new(buf, size, hor_res, ver_res, ppsl) }
    }
}

impl PixelWriter for RGBResv8BitPerColorPixelWriter {
    closed spec fn frame_config(&self) -> FrameBufferConfig {
        self.config_
    }

    fn write(&self, x: u32, y: u32, c: &PixcelColor) -> (w: PixelWrite)
        ensures
            w.bytes@ == seq![c.r, c.g, c.b],
    {
        let p = Self::pixel_at(&self.config_, x, y);
        let w = PixelWrite { address: p, bytes: [c.r, c.g, c.b] };
        assert(w.bytes@ =~= seq![c.r, c.g, c.b]);
        w
    }
}

/// A pixel lies four bytes per pixel, and four bytes per pixel per scan line
/// per row, past the frame buffer address taken modulo 2^32, with nothing else
/// cut: moving one pixel right adds 4, and one row down adds 4 times the
/// pixels per scan line.
pub proof fn lemma_pixel_address_arithmetic(frame_buffer: usize, pixels_per_scan_line: u32, x: u32, y: u32)
    ensures
        pixel_address_spec(frame_buffer, pixels_per_scan_line, x, y) == (frame_buffer as int)
            % 0x1_0000_0000 + 4 * (pixels_per_scan_line as int) * (y as int) + 4 * (x as int),
        x < u32::MAX ==> pixel_address_spec(frame_buffer, pixels_per_scan_line, (x + 1) as u32, y)
            == pixel_address_spec(frame_buffer, pixels_per_scan_line, x, y) + 4,
        y < u32::MAX ==> pixel_address_spec(frame_buffer, pixels_per_scan_line, x, (y + 1) as u32)
            == pixel_address_spec(frame_buffer, pixels_per_scan_line, x, y) + 4 * (pixels_per_scan_line as int),
{
    let fb: usize = frame_buffer;
    assert((fb as u32) as int == (fb as int) % 0x1_0000_0000) by (bit_vector);
    let p = pixels_per_scan_line as int;
    assert(4 * (p * (y as int) + (x as int)) == 4 * p * (y as int) + 4 * (x as int)) by (nonlinear_arith);
    assert(p * ((y + 1) as int) == p * (y as int) + p) by (nonlinear_arith);
}

/// Number of pixels of the kernel's white fill: the whole screen.
pub open spec fn screen_pixels(mode: ModeInfo) -> int {
    mode.hor_res * mode.ver_res
}

/// The pixel the kernel paints at step `step`, with its colour: first the
/// whole screen in white, column by column (x outer, y inner), then a green
/// 200 × 100 rectangle at the origin in the same order; then nothing.
pub open spec fn painted_pixel(mode: ModeInfo, step: int) -> Option<(u32, u32, (u8, u8, u8))> {
    let n = screen_pixels(mode);
    if 0 <= step < n {
        Some(((step / (mode.ver_res as int)) as u32, (step % (mode.ver_res as int)) as u32, (255u8, 255u8, 255u8)))
    } else if n <= step < n + 20000 {
        Some((((step - n) / 100) as u32, ((step - n) % 100) as u32, (0u8, 255u8, 0u8)))
    } else {
        None
    }
}

/// The pixel the kernel paints at step `step` and the step after it; `None`
/// (and the same step) once everything is painted.
pub fn kernel_paint_next(mode: &ModeInfo, step: u64) -> (r: (u64, Option<(u32, u32, PixcelColor)>))
    ensures
        match painted_pixel(*mode, step as int) {
            Some((x, y, (red, green, blue))) => {
                &&& r.0 == step + 1
                &&& r.1 matches Some((x1, y1, c)) && x1 == x && y1 == y && c.r == red && c.g == green && c.b == blue
            },
            None => r.0 == step && r.1 is None,
        },
{
    let w = mode.hor_res as u64;
    let h = mode.ver_res as u64;
    assert(0 <= w * h <= 0xffff_fffe_0000_0001) by (nonlinear_arith)
        requires
            w <= 0xffff_ffff,
            h <= 0xffff_ffff,
    ;
    let n = w * h;
    if step < n {
        assert(h > 0) by (nonlinear_arith)
            requires
                step < w * h,
                h >= 0,
                w >= 0,
        ;
        let x = (step / h) as u32;
        let y = (step % h) as u32;
        (step + 1, Some((x, y, PixcelColor { r: 255, g: 255, b: 255 })))
    } else if step - n < 20000 {
        let j = step - n;
        (step + 1, Some(((j / 100) as u32, (j % 100) as u32, PixcelColor { r: 0, g: 255, b: 0 })))
    } else {
        (step, None)
    }
}

/// Step `x * ver_res + y` of the white fill paints pixel (`x`, `y`), and step
/// `screen_pixels + x * 100 + y` of the green rectangle paints (`x`, `y`).
pub proof fn lemma_paint_order(mode: ModeInfo, x: u32, y: u32)
    ensures
        x < mode.hor_res && y < mode.ver_res ==> painted_pixel(mode, x * mode.ver_res + y)
            == Some((x, y, (255u8, 255u8, 255u8))),
        x < 200 && y < 100 ==> painted_pixel(mode, screen_pixels(mode) + x * 100 + y) == Some(
            (x, y, (0u8, 255u8, 0u8)),
        ),
{
    if x < mode.hor_res && y < mode.ver_res {
        let k = x * mode.ver_res + y;
        lemma_fundamental_div_mod_converse_div(k, mode.ver_res as int, x as int, y as int);
        lemma_fundamental_div_mod_converse_mod(k, mode.ver_res as int, x as int, y as int);
        assert(k < mode.hor_res * mode.ver_res) by (nonlinear_arith)
            requires
                x < mode.hor_res,
                y < mode.ver_res,
                k == x * mode.ver_res + y,
        ;
    }
    if x < 200 && y < 100 {
        let j = x * 100 + y;
        lemma_fundamental_div_mod_converse_div(j, 100, x as int, y as int);
        lemma_fundamental_div_mod_converse_mod(j, 100, x as int, y as int);
        assert(screen_pixels(mode) >= 0) by (nonlinear_arith)
            requires
                screen_pixels(mode) == mode.hor_res * mode.ver_res,
        ;
    }
}

} // verus!
