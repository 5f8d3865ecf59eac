use peb_exports::bytes::{ascii_lower, read_c_string, read_u16, read_u32};
use peb_exports::directory::ImageDirectoryEntry;
use peb_exports::section::{ImageSectionHeaders, MEM_EXECUTE, MEM_READ};

#[test]
fn little_endian_reads() {
    let b = [0x78u8, 0x56, 0x34, 0x12, 0xff];
    assert_eq!(read_u32(&b, 0), Some(0x1234_5678));
    assert_eq!(read_u16(&b, 3), Some(0xff12));
    assert_eq!(read_u32(&b, 2), None);
    assert_eq!(read_u16(&b, 4), None);
    assert_eq!(read_u16(&b, 9), None);
}

#[test]
fn c_strings_stop_at_zero() {
    let b = b"ab\0cd";
    assert_eq!(read_c_string(b, 0), Some(b"ab".to_vec()));
    assert_eq!(read_c_string(b, 2), Some(vec![]));
    assert_eq!(read_c_string(b, 3), None);
    assert_eq!(read_c_string(b, 10), None);
}

#[test]
fn lower_case_is_ascii_only() {
    assert_eq!(ascii_lower(b'K'), b'k');
    assert_eq!(ascii_lower(b'k'), b'k');
    assert_eq!(ascii_lower(b'.'), b'.');
    assert_eq!(ascii_lower(0xC4), 0xC4);
}

#[test]
fn directory_slots() {
    assert_eq!(ImageDirectoryEntry::Export.index(), 0);
    assert_eq!(ImageDirectoryEntry::Security.index(), 4);
    assert_eq!(ImageDirectoryEntry::ThreadLocalStorage.index(), 9);
    assert_eq!(ImageDirectoryEntry::ComDescriptor.index(), 14);
}

fn header(name: &[u8], ch: u32) -> ImageSectionHeaders {
    let mut n = [0u8; 8];
    n[..name.len()].copy_from_slice(name);
    ImageSectionHeaders { name: n, virtual_size: 0, virtual_address: 0, characteristics: ch }
}

#[test]
fn section_classification() {
    let text = header(b".text", MEM_EXECUTE | MEM_READ);
    assert!(text.is_code_section());
    assert!(!text.is_vmt_section());
    let rdata = header(b".rdata", MEM_READ);
    assert!(rdata.is_vmt_section());
    assert!(!rdata.is_code_section());
    let none = header(b".text", 0);
    assert!(!none.is_code_section() && !none.is_vmt_section() && !none.is_data_section());
    let data = header(b".data", MEM_READ);
    assert!(data.is_data_section());
    let longer = header(b".textbss", MEM_EXECUTE | MEM_READ);
    assert!(!longer.is_code_section());
}
