use cs2_dumper::buttons::locate_button_list;
use cs2_dumper::interfaces::{locate_interface_list, ListHeadError};
use cs2_dumper::offsets::Fault;

fn put_u16(image: &mut [u8], off: usize, v: u16) {
    image[off..off + 2].copy_from_slice(&v.to_le_bytes());
}

fn put_u32(image: &mut [u8], off: usize, v: u32) {
    image[off..off + 4].copy_from_slice(&v.to_le_bytes());
}

fn put_u64(image: &mut [u8], off: usize, v: u64) {
    image[off..off + 8].copy_from_slice(&v.to_le_bytes());
}

/// An ELF64 image exporting `CreateInterface` at `export`, with `code` placed there.
fn image(export: u64, code: &[u8], len: usize) -> Vec<u8> {
    let mut image = vec![0u8; len];
    image[..4].copy_from_slice(b"\x7fELF");
    image[4] = 2;
    put_u64(&mut image, 0x20, 0x40);
    put_u16(&mut image, 0x36, 56);
    put_u16(&mut image, 0x38, 1);
    put_u32(&mut image, 0x40, 2);
    put_u64(&mut image, 0x40 + 0x10, 0x200);
    put_u64(&mut image, 0x40 + 0x20, 0x30);
    // symbols at 0x100: null, CreateInterface; names at 0x130
    put_u32(&mut image, 0x118, 1);
    put_u16(&mut image, 0x118 + 6, 10);
    put_u64(&mut image, 0x118 + 8, export);
    image[0x130..0x130 + 17].copy_from_slice(b"\0CreateInterface\0");
    put_u64(&mut image, 0x200, 6);
    put_u64(&mut image, 0x208, 0x100);
    put_u64(&mut image, 0x210, 5);
    put_u64(&mut image, 0x218, 0x130);
    let at = export as usize;
    if at < len {
        let n = code.len().min(len - at);
        image[at..at + n].copy_from_slice(&code[..n]);
    }
    image
}

const PROLOGUE: [u8; 16] = [
    0x55, 0x48, 0x89, 0xE5, 0x48, 0x8B, 0x1D, 0x10, 0x20, 0x00, 0x00, 0x48, 0x85, 0xDB, 0x74, 0x05,
];

#[test]
fn locates_the_interface_list_load() {
    let base = 0x7F00_0000_0000;
    let image = image(0x300, &PROLOGUE, 0x400);
    assert_eq!(locate_interface_list(&image, base), Ok(base + 0x300 + 4));
}

#[test]
fn interface_list_errors() {
    let image = image(0x300, &PROLOGUE, 0x400);
    let mut no_export = image.clone();
    no_export[0x131] = b'X';
    assert_eq!(locate_interface_list(&no_export, 0), Err(ListHeadError::NoExport));
    let outside = self::image(0x500, &PROLOGUE, 0x400);
    assert_eq!(locate_interface_list(&outside, 0), Err(ListHeadError::OutOfBounds));
    let other_code = self::image(0x300, &[0x90; 16], 0x400);
    assert_eq!(locate_interface_list(&other_code, 0), Err(ListHeadError::OutdatedPattern));
    assert_eq!(
        locate_interface_list(&image, u64::MAX - 0x10),
        Err(ListHeadError::Fault(Fault::AddOverflow))
    );
}

#[test]
fn the_prologue_is_cut_at_the_end_of_the_image() {
    // The load starts 4 bytes into the export; an image ending 8 bytes after the
    // export cuts the pattern short.
    let short = image(0x300, &PROLOGUE, 0x308);
    assert_eq!(locate_interface_list(&short, 0), Err(ListHeadError::OutdatedPattern));
    let exact = image(0x300, &PROLOGUE, 0x30E);
    assert_eq!(locate_interface_list(&exact, 0), Ok(0x304));
}

#[test]
fn the_prologue_is_searched_only_in_its_first_bytes() {
    let mut late = vec![0x90u8; 0x48];
    late[0x40..0x47].copy_from_slice(&[0x48, 0x8B, 0x1D, 0, 0, 0, 0]);
    let mut code = late.clone();
    code.extend_from_slice(&[0x48, 0x85, 0xDB]);
    let image = image(0x300, &code, 0x400);
    assert_eq!(locate_interface_list(&image, 0), Err(ListHeadError::OutdatedPattern));
}

#[test]
fn locates_the_button_list_load() {
    let mut buf = vec![0xCCu8; 0x40];
    let load = [
        0x48, 0x8B, 0x05, 0x01, 0x02, 0x03, 0x04, 0x48, 0x89, 0x1D, 0x05, 0x06, 0x07, 0x08, 0x48,
        0x89, 0x83, 0x88, 0x00, 0x00, 0x00,
    ];
    buf[0x10..0x10 + load.len()].copy_from_slice(&load);
    assert_eq!(locate_button_list(&buf, 0x1000), Ok(Some(0x1010)));
    assert_eq!(locate_button_list(&buf[..0x20], 0x1000), Ok(None));
    assert_eq!(locate_button_list(&buf, u64::MAX - 1), Err(Fault::AddOverflow));
}
