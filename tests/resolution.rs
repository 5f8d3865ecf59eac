use peb_exports::directory::ImageDataDirectory;
use peb_exports::image_view::SectionRange;
use peb_exports::loader::{
    find_index, LdrDataTableEntry, ListEntry, Peb, PebLdrData, UnicodeString,
};

enum Target<'a> {
    Code(u32),
    Forward(&'a [u8]),
}

const EXPORT_VA: u32 = 0x400;
const EXPORT_SIZE: u32 = 0x400;

fn put_u16(img: &mut [u8], off: usize, v: u16) {
    img[off..off + 2].copy_from_slice(&v.to_le_bytes());
}

fn put_u32(img: &mut [u8], off: usize, v: u32) {
    img[off..off + 4].copy_from_slice(&v.to_le_bytes());
}

/// A 64-bit image with the given exports (name bytes, target) and sections
/// (name, characteristics, virtual address, virtual size).
fn image(exports: &[(&[u8], Target)], sections: &[(&[u8], u32, u32, u32)]) -> Vec<u8> {
    let mut img = vec![0u8; 0x1000];
    img[0] = b'M';
    img[1] = b'Z';
    put_u32(&mut img, 0x3c, 0x80);
    img[0x80..0x84].copy_from_slice(b"PE\0\0");
    put_u16(&mut img, 0x84, 0x8664);
    put_u16(&mut img, 0x86, sections.len() as u16);
    put_u16(&mut img, 0x94, 240);
    put_u16(&mut img, 0x98, 0x20b);
    put_u32(&mut img, 0x98 + 108, 16);
    put_u32(&mut img, 0x98 + 112, EXPORT_VA);
    put_u32(&mut img, 0x98 + 116, EXPORT_SIZE);
    for (k, (name, ch, va, size)) in sections.iter().enumerate() {
        let off = 0x98 + 240 + 40 * k;
        img[off..off + name.len()].copy_from_slice(name);
        put_u32(&mut img, off + 8, *size);
        put_u32(&mut img, off + 12, *va);
        put_u32(&mut img, off + 36, *ch);
    }
    let ed = EXPORT_VA as usize;
    let functions = ed + 0x40;
    let names = ed + 0x80;
    let ordinals = ed + 0xc0;
    let mut strings = ed + 0x100;
    put_u32(&mut img, ed + 20, exports.len() as u32);
    put_u32(&mut img, ed + 24, exports.len() as u32);
    put_u32(&mut img, ed + 28, functions as u32);
    put_u32(&mut img, ed + 32, names as u32);
    put_u32(&mut img, ed + 36, ordinals as u32);
    // Ordinals run backwards, so that a name's index and its ordinal differ.
    let n = exports.len();
    for (i, (name, target)) in exports.iter().enumerate() {
        let ordinal = n - 1 - i;
        put_u16(&mut img, ordinals + 2 * i, ordinal as u16);
        put_u32(&mut img, names + 4 * i, strings as u32);
        img[strings..strings + name.len()].copy_from_slice(name);
        strings += name.len() + 1;
        let rva = match target {
            Target::Code(rva) => *rva,
            Target::Forward(to) => {
                let at = strings;
                img[strings..strings + to.len()].copy_from_slice(to);
                strings += to.len() + 1;
                at as u32
            }
        };
        put_u32(&mut img, functions + 4 * ordinal, rva);
    }
    img
}

fn utf16(s: &str) -> Vec<u16> {
    s.encode_utf16().collect()
}

fn entry(name: &str, base: u64, img: Vec<u8>) -> LdrDataTableEntry {
    LdrDataTableEntry {
        in_load_order_links: ListEntry { flink: 0, blink: 0 },
        dll_base: base,
        full_dll_name: UnicodeString { buffer: utf16(&format!("C:\\Windows\\System32\\{}", name)) },
        base_dll_name: UnicodeString { buffer: utf16(name) },
        image: img,
    }
}

/// A process whose module list links the entries in table order; the last one
/// links back to the list head, which is no entry of the table.
fn process(mut entries: Vec<LdrDataTableEntry>) -> Peb {
    let n = entries.len();
    for (i, e) in entries.iter_mut().enumerate() {
        e.in_load_order_links = ListEntry { flink: i + 1, blink: if i == 0 { n } else { i - 1 } };
    }
    Peb {
        being_debugged: false,
        ldr: PebLdrData {
            in_load_order_module_list: ListEntry { flink: 0, blink: n.saturating_sub(1) },
            entries,
        },
    }
}

const NTDLL_BASE: u64 = 0x7ff8_0000_0000;
const KERNEL32_BASE: u64 = 0x7ff7_0000_0000;
const APP_BASE: u64 = 0x1400_0000;

fn sample() -> Peb {
    let app = image(&[], &[]);
    let ntdll = image(
        &[
            (b"RtlEnterCriticalSection", Target::Code(0x2000)),
            (b"RtlLeaveCriticalSection", Target::Code(0x2100)),
            (b"SharedName", Target::Code(0x2200)),
        ],
        &[(b".text", 0x6000_0020, 0x1000, 0x5000), (b".rdata", 0x4000_0040, 0x6000, 0x800)],
    );
    let kernel32 = image(
        &[
            (b"CreateFileW", Target::Code(0x3000)),
            (b"EnterCriticalSection", Target::Forward(b"NTDLL.RtlEnterCriticalSection")),
            (b"LeaveCriticalSection", Target::Forward(b"ntdll.RtlLeaveCriticalSection")),
            (b"Orphan", Target::Forward(b"missing.SharedName")),
            (b"Loop", Target::Forward(b"kernel32.Loop")),
            (b"NoDot", Target::Forward(b"nodot")),
        ],
        &[(b".data", 0xC000_0040, 0x8000, 0x100)],
    );
    process(vec![
        entry("app.exe", APP_BASE, app),
        entry("ntdll.dll", NTDLL_BASE, ntdll),
        entry("KERNEL32.DLL", KERNEL32_BASE, kernel32),
    ])
}

#[test]
fn resolves_non_forwarded_export() {
    let peb = sample();
    let ntdll = LdrDataTableEntry::find(&peb, "ntdll").unwrap();
    assert_eq!(ntdll.export_function(&peb, "RtlEnterCriticalSection"), Some(NTDLL_BASE + 0x2000));
    assert_eq!(ntdll.export_function(&peb, "RtlLeaveCriticalSection"), Some(NTDLL_BASE + 0x2100));
    let kernel32 = LdrDataTableEntry::find(&peb, "kernel32").unwrap();
    assert_eq!(kernel32.export_function(&peb, "CreateFileW"), Some(KERNEL32_BASE + 0x3000));
}

#[test]
fn resolves_forwarded_export_in_other_module() {
    let peb = sample();
    let kernel32 = LdrDataTableEntry::find(&peb, "kernel32").unwrap();
    assert_eq!(kernel32.export_function(&peb, "EnterCriticalSection"), Some(NTDLL_BASE + 0x2000));
    assert_eq!(kernel32.export_function(&peb, "LeaveCriticalSection"), Some(NTDLL_BASE + 0x2100));
}

#[test]
fn forwarder_to_unknown_module_falls_back_to_any_module() {
    let peb = sample();
    let kernel32 = LdrDataTableEntry::find(&peb, "kernel32").unwrap();
    assert_eq!(kernel32.export_function(&peb, "Orphan"), Some(NTDLL_BASE + 0x2200));
}

#[test]
fn forwarder_cycle_resolves_to_nothing() {
    let peb = sample();
    let kernel32 = LdrDataTableEntry::find(&peb, "kernel32").unwrap();
    assert_eq!(kernel32.export_function(&peb, "Loop"), None);
}

#[test]
fn forwarder_without_dot_resolves_to_nothing() {
    let peb = sample();
    let kernel32 = LdrDataTableEntry::find(&peb, "kernel32").unwrap();
    assert_eq!(kernel32.export_function(&peb, "NoDot"), None);
}

#[test]
fn forwarder_that_is_not_utf8_yields_its_own_address() {
    let bad: &[u8] = &[b'n', 0xff, b'.', b'X'];
    let img = image(&[(b"Odd", Target::Forward(bad))], &[]);
    let peb = process(vec![entry("odd.dll", APP_BASE, img)]);
    let odd = &peb.ldr.entries[0];
    let at = odd.export_function(&peb, "Odd").unwrap();
    assert!(at > APP_BASE + EXPORT_VA as u64);
    assert!(at <= APP_BASE + (EXPORT_VA + EXPORT_SIZE) as u64);
}

#[test]
fn missing_export_is_none() {
    let peb = sample();
    for m in ["ntdll", "kernel32", "app"] {
        let e = LdrDataTableEntry::find(&peb, m).unwrap();
        assert_eq!(e.export_function(&peb, "DoesNotExist"), None);
    }
}

#[test]
fn missing_module_is_none() {
    let peb = sample();
    assert!(LdrDataTableEntry::find(&peb, "DoesNotExist").is_none());
    assert_eq!(find_index(&peb.ldr, b"DoesNotExist"), None);
}

#[test]
fn find_ignores_ascii_case() {
    let peb = sample();
    let upper = find_index(&peb.ldr, b"KERNEL32");
    let lower = find_index(&peb.ldr, b"kernel32");
    assert_eq!(upper, Some(2));
    assert_eq!(upper, lower);
    let a = LdrDataTableEntry::find(&peb, "KERNEL32").unwrap();
    let b = LdrDataTableEntry::find(&peb, "kernel32").unwrap();
    assert!(std::ptr::eq(a, b));
}

#[test]
fn find_accepts_a_prefix() {
    let peb = sample();
    assert_eq!(find_index(&peb.ldr, b"nt"), Some(1));
    assert_eq!(find_index(&peb.ldr, b"ntdll.dll.extra"), Some(1));
    assert!(LdrDataTableEntry::find(&peb, "ntdlx").is_none());
}

#[test]
fn end_to_end_scenario() {
    let peb = sample();
    let kernel32 = LdrDataTableEntry::find(&peb, "kernel32").unwrap();
    let a = kernel32.export_function(&peb, "EnterCriticalSection");
    assert!(matches!(a, Some(x) if x != 0));
    let ntdll = LdrDataTableEntry::find(&peb, "ntdll").unwrap();
    let b = ntdll.export_function(&peb, "RtlEnterCriticalSection");
    assert!(matches!(b, Some(x) if x != 0));
    assert_eq!(kernel32.export_function(&peb, "ZzNotARealExport"), None);
    assert_eq!(ntdll.export_function(&peb, "ZzNotARealExport"), None);
}

#[test]
fn iteration_is_repeatable_and_visits_each_once() {
    let peb = sample();
    let first = peb.ldr.modules();
    let second = peb.ldr.modules();
    assert_eq!(first, vec![0, 1, 2]);
    assert_eq!(first, second);
    let mut it = LdrDataTableEntry::iter(&peb);
    let mut bases = Vec::new();
    while let Some(k) = it.next(&peb.ldr) {
        bases.push(peb.ldr.entries[k].dll_base());
    }
    assert_eq!(bases, vec![APP_BASE, NTDLL_BASE, KERNEL32_BASE]);
    assert_eq!(it.next(&peb.ldr), None);
}

#[test]
fn iteration_is_bounded_on_a_cycle_that_skips_the_start() {
    let mut peb = sample();
    // The last entry links back to the second, never to the first.
    peb.ldr.entries[2].in_load_order_links.flink = 1;
    let order = peb.ldr.modules();
    assert_eq!(order, vec![0, 1, 2]);
    assert!(order.len() <= peb.ldr.entries.len());
}

#[test]
fn iteration_stops_at_a_null_base() {
    let mut peb = sample();
    peb.ldr.entries[1].dll_base = 0;
    assert_eq!(peb.ldr.modules(), vec![0]);
}

#[test]
fn iteration_stops_when_the_ring_closes() {
    let mut peb = sample();
    peb.ldr.entries[2].in_load_order_links.flink = 0;
    assert_eq!(peb.ldr.modules(), vec![0, 1, 2]);
}

#[test]
fn empty_module_list() {
    let peb = process(vec![]);
    assert!(peb.ldr.modules().is_empty());
    assert!(LdrDataTableEntry::find(&peb, "ntdll").is_none());
}

#[test]
fn sections_are_classified() {
    let peb = sample();
    let ntdll = &peb.ldr.entries[1];
    assert_eq!(ntdll.code_section(), Some(SectionRange { start: NTDLL_BASE + 0x1000, len: 0x5000 }));
    assert_eq!(ntdll.vmt_section(), Some(SectionRange { start: NTDLL_BASE + 0x6000, len: 0x800 }));
    assert_eq!(ntdll.data_section(), None);
    let kernel32 = &peb.ldr.entries[2];
    assert_eq!(kernel32.code_section(), None);
    assert_eq!(kernel32.data_section(), Some(SectionRange { start: KERNEL32_BASE + 0x8000, len: 0x100 }));
    let hs = ntdll.section_headers().unwrap();
    assert_eq!(hs.len(), 2);
    assert!(hs[0].is_code_section());
    assert!(hs[0].is_executable() && hs[0].is_readable());
    assert!(hs[1].is_vmt_section());
    assert!(!hs[1].is_code_section());
    assert_eq!(*hs[1].virtual_address(), 0x6000);
    assert_eq!(*hs[1].virtual_size(), 0x800);
    assert_eq!(&hs[1].name()[..6], b".rdata");
}

#[test]
fn headers_are_read_at_their_offsets() {
    let peb = sample();
    let ntdll = &peb.ldr.entries[1];
    let dos = ntdll.dos_header().unwrap();
    assert_eq!(dos.e_magic, 0x5a4d);
    assert_eq!(dos.e_lfanew, 0x80);
    let nt = ntdll.nt_headers().unwrap();
    assert_eq!(nt.signature, 0x4550);
    assert_eq!(*nt.file_header.number_of_sections(), 2);
    assert_eq!(*nt.file_header.size_of_optional_header(), 240);
    let oh = ntdll.optional_header().unwrap();
    assert_eq!(oh.magic, 0x20b);
    assert_eq!(oh.number_of_rva_and_sizes, 16);
    let dd = ntdll.data_directory(peb_exports::directory::ImageDirectoryEntry::Export).unwrap();
    assert_eq!(dd, ImageDataDirectory { virtual_address: EXPORT_VA, size: EXPORT_SIZE });
    let ed = ntdll.export_directory().unwrap();
    assert_eq!(*ed.number_of_names(), 3);
    assert_eq!(ntdll.export_directory_from(&dd), Some(ed));
    let img = ntdll.image.as_slice();
    assert_eq!(ed.name(img, &0).unwrap(), b"RtlEnterCriticalSection".to_vec());
    assert_eq!(ed.name_ordinals(img, &0), Some(2));
    assert_eq!(ed.function_rva(img, &0), Some(0x2000));
    assert_eq!(ed.function_rva(img, &2), Some(0x2200));
    assert_eq!(ed.name(&img[..0x490], &7), None);
    assert_eq!(ed.name(img, &7), Some(b"MZ".to_vec()));
    assert_eq!(ed.address_of_names(NTDLL_BASE), NTDLL_BASE + 0x480);
}

#[test]
fn short_image_has_no_headers() {
    let e = entry("tiny.dll", APP_BASE, vec![0u8; 16]);
    assert!(e.dos_header().is_none());
    assert!(e.nt_headers().is_none());
    assert!(e.export_directory().is_none());
    assert!(e.code_section().is_none());
    let peb = process(vec![e]);
    assert_eq!(peb.ldr.entries[0].export_function(&peb, "Anything"), None);
}

#[test]
fn forwarded_range_includes_both_ends() {
    let dd = ImageDataDirectory { virtual_address: 0x400, size: 0x100 };
    assert!(dd.is_forwarded_export(0x400));
    assert!(dd.is_forwarded_export(0x500));
    assert!(!dd.is_forwarded_export(0x501));
    assert!(!dd.is_forwarded_export(0x3ff));
    let wide = ImageDataDirectory { virtual_address: 0xffff_ff00, size: 0x200 };
    assert!(wide.is_forwarded_export(0xffff_ffff));
    assert_eq!(*dd.virtual_address(), 0x400);
}

#[test]
fn display_name_comparison() {
    let e = entry("KERNEL32.DLL", KERNEL32_BASE, vec![]);
    assert!(e.has_same_base_dll_name("kernel32.dll"));
    assert!(e.has_same_base_dll_name("Kernel32"));
    assert!(!e.has_same_base_dll_name("kernel33"));
    assert_eq!(e.base_dll_name().len(), 12);
    assert!(e.full_dll_name().len() > 12);
}

#[test]
fn export_name_that_is_not_utf8_is_skipped() {
    let bad: &[u8] = &[b'B', 0xff, b'd'];
    let img = image(&[(bad, Target::Code(0x1100)), (b"Good", Target::Code(0x1200))], &[]);
    let peb = process(vec![entry("mixed.dll", APP_BASE, img)]);
    let m = &peb.ldr.entries[0];
    let ed = m.export_directory().unwrap();
    let bytes = m.image.as_slice();
    assert_eq!(ed.name(bytes, &0), None);
    assert_eq!(ed.name(bytes, &1), Some(b"Good".to_vec()));
    assert_eq!(ed.name_rva(bytes, &0).is_some(), true);
    assert_eq!(m.export_function(&peb, "Good"), Some(APP_BASE + 0x1200));
    assert_eq!(m.export_function_within(&peb, bad, 16), None);
}
