//! The overlay window that carries the light: its size, and the Win32
//! structures that describe its pixels and how they are put on screen.
use vstd::prelude::*;

verus! {

/// Width and height of the square overlay window, in pixels.
pub const OVR: i32 = 300;

/// Height of the overlay's bitmap: negative, so that its rows run top-down.
pub const OVR_TOP_DOWN: i32 = -300;

/// Extended window style of the overlay: layered, click-through, topmost,
/// a tool window (no taskbar button), never activated.
pub const OVERLAY_EX_STYLE: u32 = 0x00080000 | 0x00000020 | 0x00000008 | 0x00000080 | 0x08000000;

/// Window style of the overlay: a popup window.
pub const OVERLAY_STYLE: u32 = 0x80000000;

/// Size in bytes of the Win32 `BITMAPINFOHEADER` structure.
pub const BITMAPINFOHEADER_SIZE: u32 = 40;

/// A Win32 `POINT`.
#[derive(Clone, Copy, Debug, PartialEq, Eq)]
pub struct POINT {
    pub x: i32,
    pub y: i32,
}

/// A Win32 `SIZE`.
#[derive(Clone, Copy, Debug, PartialEq, Eq)]
pub struct SIZE {
    pub cx: i32,
    pub cy: i32,
}

/// A Win32 `BLENDFUNCTION`.
#[derive(Clone, Copy, Debug, PartialEq, Eq)]
pub struct BLENDFUNCTION {
    pub op: u8,
    pub flags: u8,
    pub alpha: u8,
    pub format: u8,
}

/// A Win32 `BITMAPINFOHEADER`.
#[derive(Clone, Copy, Debug, PartialEq, Eq)]
pub struct BITMAPINFOHEADER {
    pub size: u32,
    pub width: i32,
    pub height: i32,
    pub planes: u16,
    pub bit_count: u16,
    pub compression: u32,
    pub size_image: u32,
    pub x_ppm: i32,
    pub y_ppm: i32,
    pub clr_used: u32,
    pub clr_important: u32,
}

/// A Win32 `BITMAPINFO` with a one-entry color table.
#[derive(Clone, Copy, Debug, PartialEq, Eq)]
pub struct BITMAPINFO {
    pub header: BITMAPINFOHEADER,
    pub colors: [u32; 1],
}

/// The bitmap behind the overlay: `OVR` by `OVR` pixels, 32 bits each,
/// top-down (negative height), uncompressed, one plane; every other field
/// zero.
pub fn overlay_bitmap_info() -> (res: BITMAPINFO)
    ensures
        res.header == (BITMAPINFOHEADER {
            size: BITMAPINFOHEADER_SIZE,
            width: OVR,
            height: OVR_TOP_DOWN,
            planes: 1,
            bit_count: 32,
            compression: 0,
            size_image: 0,
            x_ppm: 0,
            y_ppm: 0,
            clr_used: 0,
            clr_important: 0,
        }),
        res.colors@ == seq![0u32],
{
    let header = BITMAPINFOHEADER {
        size: BITMAPINFOHEADER_SIZE,
        width: OVR,
        height: OVR_TOP_DOWN,
        planes: 1,
        bit_count: 32,
        compression: 0,
        size_image: 0,
        x_ppm: 0,
        y_ppm: 0,
        clr_used: 0,
        clr_important: 0,
    };
    let colors: [u32; 1] = [0];
    proof {
        assert(colors@ =~= seq![0u32]);
    }
    BITMAPINFO { header, colors }
}

/// Length in bytes of the overlay's pixel buffer: four bytes (blue, green,
/// red, alpha) for each of its pixels.
pub fn overlay_buffer_len() -> (res: usize)
    ensures
        res == OVR * OVR * 4,
{
    (OVR * OVR * 4) as usize
}

/// How the overlay's pixels are put on screen: their own per-pixel alpha
/// (`AC_SRC_ALPHA`) at full opacity over what lies below (`AC_SRC_OVER`).
pub fn overlay_blend() -> (res: BLENDFUNCTION)
    ensures
        res == (BLENDFUNCTION { op: 0, flags: 0, alpha: 255, format: 1 }),
{
    BLENDFUNCTION { op: 0, flags: 0, alpha: 255, format: 1 }
}

/// Where the overlay goes: its top-left corner on screen, its size, and
/// the point of the bitmap that goes there (its own top-left corner).
pub fn overlay_placement(x: i32, y: i32) -> (res: (POINT, SIZE, POINT))
    ensures
        res.0 == (POINT { x, y }),
        res.1 == (SIZE { cx: OVR, cy: OVR }),
        res.2 == (POINT { x: 0, y: 0 }),
{
    (POINT { x, y }, SIZE { cx: OVR, cy: OVR }, POINT { x: 0, y: 0 })
}

} // verus!
