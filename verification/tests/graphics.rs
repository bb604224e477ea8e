use mikan_os::boot_info::{ModeInfo, PixelFormat};
use mikan_os::graphics::{
    kernel_paint_next, BGRResv8BitPerColorPixelWriter, PixcelColor, PixelWriter, RGBResv8BitPerColorPixelWriter,
};

#[test]
fn rgb_writer_stores_red_green_blue() {
    let writer = RGBResv8BitPerColorPixelWriter::new(0x1000, 0, 800, 600, 832);
    let w = writer.write(3, 2, &PixcelColor { r: 1, g: 2, b: 3 });
    assert_eq!(w.address, 0x1000 + 4 * (832 * 2 + 3));
    assert_eq!(w.bytes, [1, 2, 3]);
}

#[test]
fn bgr_writer_stores_blue_green_red() {
    let writer = BGRResv8BitPerColorPixelWriter::new(0x8000_0000, 0, 640, 480, 640);
    let w = writer.write(0, 0, &PixcelColor { r: 10, g: 20, b: 30 });
    assert_eq!(w.address, 0x8000_0000);
    assert_eq!(w.bytes, [30, 20, 10]);
}

#[test]
fn frame_buffer_address_is_cut_to_32_bits() {
    let writer = RGBResv8BitPerColorPixelWriter::new(0x1_0000_2000, 0, 10, 10, 10);
    let w = writer.write(1, 1, &PixcelColor { r: 0, g: 0, b: 0 });
    assert_eq!(w.address, 0x2000 + 4 * 11);
}

#[test]
fn rgb_and_bgr_writers_mirror_each_other() {
    let rgb = RGBResv8BitPerColorPixelWriter::new(0x4000, 1, 2, 3, 64);
    let bgr = BGRResv8BitPerColorPixelWriter::new(0x4000, 9, 8, 7, 64);
    let a = rgb.write(5, 6, &PixcelColor { r: 1, g: 2, b: 3 });
    let b = bgr.write(5, 6, &PixcelColor { r: 3, g: 2, b: 1 });
    assert_eq!(a, b);
}

fn mode(hor_res: u32, ver_res: u32) -> ModeInfo {
    ModeInfo { version: 0, hor_res, ver_res, format: PixelFormat::Rgb, mask: None, stride: hor_res }
}

#[test]
fn kernel_paints_screen_then_rectangle() {
    let m = mode(3, 2);
    let mut step = 0u64;
    let mut painted = Vec::new();
    loop {
        let (next, pixel) = kernel_paint_next(&m, step);
        match pixel {
            Some((x, y, c)) => painted.push((x, y, c.r, c.g, c.b)),
            None => {
                assert_eq!(next, step);
                break;
            }
        }
        assert_eq!(next, step + 1);
        step = next;
    }
    assert_eq!(painted.len(), 6 + 20000);
    assert_eq!(&painted[..6], &[
        (0, 0, 255, 255, 255), (0, 1, 255, 255, 255), (1, 0, 255, 255, 255),
        (1, 1, 255, 255, 255), (2, 0, 255, 255, 255), (2, 1, 255, 255, 255),
    ]);
    assert_eq!(painted[6], (0, 0, 0, 255, 0));
    assert_eq!(painted[7], (0, 1, 0, 255, 0));
    assert_eq!(painted[6 + 100], (1, 0, 0, 255, 0));
    assert_eq!(painted[6 + 19999], (199, 99, 0, 255, 0));
}

#[test]
fn empty_screen_paints_only_the_rectangle() {
    let (_, pixel) = kernel_paint_next(&mode(640, 0), 0);
    let (x, y, c) = pixel.unwrap();
    assert_eq!((x, y, c.r, c.g, c.b), (0, 0, 0, 255, 0));
}
