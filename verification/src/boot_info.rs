//! What the boot loader hands to the kernel.
use vstd::prelude::*;

verus! {

/// Where the frame buffer lies and how large it is.
#[derive(Debug, Copy, Clone, PartialEq, Eq, Structural)]
pub struct FrameBufferInfo {
    /// Address of the first byte of the frame buffer.
    pub fb: usize,
    /// Size of the frame buffer in bytes.
    pub size: usize,
}

#[derive(Debug, Copy, Clone, PartialEq, Eq, Structural)]
pub enum PixelFormat {
    Rgb,
    Bgr,
    Bitmask,
    BltOnly,
}

#[derive(Debug, Copy, Clone, PartialEq, Eq, Structural)]
pub struct PixelBitmask {
    pub red: u32,
    pub green: u32,
    pub blue: u32,
    pub reserved: u32,
}

/// A graphics mode as the firmware describes it.
#[derive(Debug, Copy, Clone, PartialEq, Eq)]
pub struct ModeInfo {
    /// Always 0.
    pub version: u32,
    pub hor_res: u32,
    pub ver_res: u32,
    pub format: PixelFormat,
    pub mask: Option<PixelBitmask>,
    pub stride: u32,
}

/// The arguments of the kernel's entry point.
#[derive(Debug, Copy, Clone, PartialEq, Eq)]
pub struct KernelArguments {
    pub frame_buffer_info: FrameBufferInfo,
    pub mode_info: ModeInfo,
}

} // verus!
