use cs2_dumper::elf::export_rva;

const SYMTAB: usize = 0x100;
const STRTAB: usize = 0x160;
const DYNAMIC: usize = 0x200;

fn put_u16(image: &mut [u8], off: usize, v: u16) {
    image[off..off + 2].copy_from_slice(&v.to_le_bytes());
}

fn put_u32(image: &mut [u8], off: usize, v: u32) {
    image[off..off + 4].copy_from_slice(&v.to_le_bytes());
}

fn put_u64(image: &mut [u8], off: usize, v: u64) {
    image[off..off + 8].copy_from_slice(&v.to_le_bytes());
}

fn put_symbol(image: &mut [u8], index: usize, name: u32, shndx: u16, value: u64) {
    let sym = SYMTAB + index * 24;
    put_u32(image, sym, name);
    image[sym + 4] = 0x12;
    put_u16(image, sym + 6, shndx);
    put_u64(image, sym + 8, value);
    put_u64(image, sym + 16, 0);
}

/// A small ELF64 image as mapped in memory: one `PT_LOAD`, one `PT_DYNAMIC`, four
/// symbols (null, an import, `CreateInterface`, `Other`) and their names.
fn image() -> Vec<u8> {
    let mut image = vec![0u8; 0x240];
    image[..4].copy_from_slice(b"\x7fELF");
    image[4] = 2;
    image[5] = 1;
    put_u64(&mut image, 0x20, 0x40);
    put_u16(&mut image, 0x36, 56);
    put_u16(&mut image, 0x38, 2);
    // PT_LOAD
    put_u32(&mut image, 0x40, 1);
    put_u64(&mut image, 0x40 + 0x20, 0x240);
    // PT_DYNAMIC
    let phdr = 0x40 + 56;
    put_u32(&mut image, phdr, 2);
    put_u64(&mut image, phdr + 0x10, DYNAMIC as u64);
    put_u64(&mut image, phdr + 0x20, 0x40);
    // names
    let names = b"\0dlopen\0CreateInterface\0Other\0";
    image[STRTAB..STRTAB + names.len()].copy_from_slice(names);
    // symbols
    put_symbol(&mut image, 0, 0, 0, 0);
    put_symbol(&mut image, 1, 1, 0, 0);
    put_symbol(&mut image, 2, 8, 12, 0x1234);
    put_symbol(&mut image, 3, 24, 12, 0x5678);
    // dynamic entries
    put_u64(&mut image, DYNAMIC, 6);
    put_u64(&mut image, DYNAMIC + 8, SYMTAB as u64);
    put_u64(&mut image, DYNAMIC + 16, 5);
    put_u64(&mut image, DYNAMIC + 24, STRTAB as u64);
    put_u64(&mut image, DYNAMIC + 32, 11);
    put_u64(&mut image, DYNAMIC + 40, 24);
    put_u64(&mut image, DYNAMIC + 48, 0);
    put_u64(&mut image, DYNAMIC + 56, 0);
    image
}

/// Rewrites `DT_SYMTAB` / `DT_STRTAB` to absolute addresses, as the loader does.
fn relocate(image: &mut [u8], base: u64) {
    for entry in [DYNAMIC, DYNAMIC + 16] {
        let val = u64::from_le_bytes(image[entry + 8..entry + 16].try_into().unwrap());
        put_u64(image, entry + 8, val + base);
    }
}

#[test]
fn finds_an_export_in_a_module_relative_image() {
    assert_eq!(export_rva(&image(), 0, "CreateInterface"), Some(0x1234));
    assert_eq!(export_rva(&image(), 0, "Other"), Some(0x5678));
}

#[test]
fn relocated_dynamic_resolves_to_the_same_rva() {
    const BASE: u64 = 0x7F0000000000;
    let mut relocated = image();
    relocate(&mut relocated, BASE);
    assert_eq!(export_rva(&relocated, BASE, "CreateInterface"), Some(0x1234));
    assert_eq!(export_rva(&relocated, BASE, "CreateInterface"), export_rva(&image(), 0, "CreateInterface"));
}

#[test]
fn module_relative_tables_below_the_base_are_kept() {
    assert_eq!(export_rva(&image(), 0x7F0000000000, "CreateInterface"), Some(0x1234));
}

#[test]
fn imports_and_unknown_names_are_not_exports() {
    assert_eq!(export_rva(&image(), 0, "dlopen"), None);
    assert_eq!(export_rva(&image(), 0, "CreateInterfaceX"), None);
    assert_eq!(export_rva(&image(), 0, "Create"), None);
    assert_eq!(export_rva(&image(), 0, ""), None);
}

#[test]
fn rejects_images_that_are_not_elf64() {
    let mut bad_magic = image();
    bad_magic[1] = b'X';
    assert_eq!(export_rva(&bad_magic, 0, "CreateInterface"), None);
    let mut elf32 = image();
    elf32[4] = 1;
    assert_eq!(export_rva(&elf32, 0, "CreateInterface"), None);
    assert_eq!(export_rva(&[], 0, "CreateInterface"), None);
    assert_eq!(export_rva(b"\x7fELF", 0, "CreateInterface"), None);
}

#[test]
fn truncated_image_has_no_exports() {
    let image = image();
    assert_eq!(export_rva(&image[..0x60], 0, "CreateInterface"), None);
    assert_eq!(export_rva(&image[..DYNAMIC + 8], 0, "CreateInterface"), None);
}

#[test]
fn missing_dynamic_segment_or_tables_give_none() {
    let mut no_dynamic = image();
    put_u32(&mut no_dynamic, 0x40 + 56, 3);
    assert_eq!(export_rva(&no_dynamic, 0, "CreateInterface"), None);

    let mut no_strtab = image();
    put_u64(&mut no_strtab, DYNAMIC + 16, 7);
    assert_eq!(export_rva(&no_strtab, 0, "CreateInterface"), None);

    let mut zero_syment = image();
    put_u64(&mut zero_syment, DYNAMIC + 40, 0);
    assert_eq!(export_rva(&zero_syment, 0, "CreateInterface"), None);

    let mut empty_dynamic = image();
    put_u64(&mut empty_dynamic, 0x40 + 56 + 0x20, 0);
    assert_eq!(export_rva(&empty_dynamic, 0, "CreateInterface"), None);
}

#[test]
fn entries_after_dt_null_are_ignored() {
    let mut image = image();
    // Move DT_NULL before DT_SYMENT: the symbol size falls back to 24 bytes.
    put_u64(&mut image, DYNAMIC + 32, 0);
    assert_eq!(export_rva(&image, 0, "CreateInterface"), Some(0x1234));
    // DT_NULL first: no tables at all.
    put_u64(&mut image, DYNAMIC, 0);
    assert_eq!(export_rva(&image, 0, "CreateInterface"), None);
}

#[test]
fn a_name_without_terminator_does_not_match() {
    let mut image = image();
    // "Other" is the last name; cut the image right after it.
    let end = STRTAB + 24 + 5;
    image.truncate(end);
    // The dynamic section is gone too, so nothing resolves.
    assert_eq!(export_rva(&image, 0, "Other"), None);
}
