use buildid::windows::build_id;

fn put_u16(img: &mut [u8], off: usize, v: u16) {
    img[off..off + 2].copy_from_slice(&v.to_le_bytes());
}

fn put_u32(img: &mut [u8], off: usize, v: u32) {
    img[off..off + 4].copy_from_slice(&v.to_le_bytes());
}

// Layout used by these tests: the newer header at 0x40, so the file header
// sits at 0x44, the optional header at 0x58, the directory table at 0xC8,
// and its debug entry (index 6) at 0xF8.
const DIR_VA_OFF: usize = 0xF8;
const DIR_SIZE_OFF: usize = 0xFC;

fn base_image() -> Vec<u8> {
    let mut img = vec![0u8; 0x200];
    put_u32(&mut img, 0x3C, 0x40);
    put_u16(&mut img, 0x44 + 16, 240); // optional header present
    put_u32(&mut img, 0x58 + 108, 16); // directory table reaches entry 6
    img
}

fn with_debug_entry(entry_type: u32, raw: u32, sig: u32, id: &[u8; 16]) -> Vec<u8> {
    let mut img = base_image();
    put_u32(&mut img, DIR_VA_OFF, 0x110);
    put_u32(&mut img, DIR_SIZE_OFF, 28);
    put_u32(&mut img, 0x110 + 12, entry_type);
    put_u32(&mut img, 0x110 + 20, raw);
    put_u32(&mut img, raw as usize, sig);
    img[raw as usize + 4..raw as usize + 20].copy_from_slice(id);
    img
}

const RSDS: u32 = 0x5344_5352;

#[test]
fn pe_identifier_found() {
    let id = [0x5Au8; 16];
    let img = with_debug_entry(2, 0x140, RSDS, &id);
    assert_eq!(build_id(&img), Some(&id[..]));
}

#[test]
fn pe_empty_debug_directory_absent() {
    let mut img = base_image();
    // A zero-sized directory whose address points far outside the image
    // must be ignored, not followed.
    put_u32(&mut img, DIR_VA_OFF, 0xFFFF_FFF0);
    put_u32(&mut img, DIR_SIZE_OFF, 0);
    assert_eq!(build_id(&img), None);
}

#[test]
fn pe_wrong_signature_absent() {
    let id = [0x5Au8; 16];
    let img = with_debug_entry(2, 0x140, 0x0000_4242, &id);
    assert_eq!(build_id(&img), None);
}

#[test]
fn pe_wrong_entry_type_absent() {
    let id = [0x5Au8; 16];
    let img = with_debug_entry(10, 0x140, RSDS, &id);
    assert_eq!(build_id(&img), None);
}

#[test]
fn pe_second_entry_scanned() {
    let id = [0x77u8; 16];
    let mut img = base_image();
    put_u32(&mut img, DIR_VA_OFF, 0x110);
    put_u32(&mut img, DIR_SIZE_OFF, 56); // two entries
    put_u32(&mut img, 0x110 + 12, 10); // first entry: another type
    put_u32(&mut img, 0x110 + 28 + 12, 2); // second entry: symbol format
    put_u32(&mut img, 0x110 + 28 + 20, 0x160);
    put_u32(&mut img, 0x160, RSDS);
    img[0x164..0x174].copy_from_slice(&id);
    assert_eq!(build_id(&img), Some(&id[..]));
}

#[test]
fn pe_no_optional_header_absent() {
    let mut img = base_image();
    put_u16(&mut img, 0x44 + 16, 0);
    assert_eq!(build_id(&img), None);
}

#[test]
fn pe_directory_table_too_short_absent() {
    let mut img = base_image();
    put_u32(&mut img, 0x58 + 108, 6); // table ends before the debug entry
    put_u32(&mut img, DIR_VA_OFF, 0x110);
    put_u32(&mut img, DIR_SIZE_OFF, 28);
    assert_eq!(build_id(&img), None);
}

#[test]
fn pe_image_too_short_absent() {
    assert_eq!(build_id(&[]), None);
    assert_eq!(build_id(&[0u8; 0x3F]), None);
    // Header pointer runs past the image.
    let mut img = vec![0u8; 0x50];
    put_u32(&mut img, 0x3C, 0x1000);
    assert_eq!(build_id(&img), None);
}

#[test]
fn pe_payload_outside_image_absent() {
    let id = [0x5Au8; 16];
    let mut img = with_debug_entry(2, 0x140, RSDS, &id);
    // Point the payload past the end of the image.
    put_u32(&mut img, 0x110 + 20, 0x1F0);
    assert_eq!(build_id(&img), None);
}
