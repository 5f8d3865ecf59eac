use vstd::prelude::*;
use vstd::string::StringSliceAdditionalSpecFns;
use crate::bytes::{in_bounds, u32_at};
use crate::directory::{ImageDataDirectory, ImageDirectoryEntry};
use crate::export::{base_fits, ImageExportDirectory, EXPORT_DIRECTORY_SIZE};
use crate::headers::{
    ImageDosHeader, ImageFileHeader, ImageNtHeaders, ImageOptionalHeader, DOS_HEADER_SIZE,
};
use crate::loader::{
    find_in, find_index, name_matches, same_name, LdrDataTableEntry, ListEntry, ListEntryIterator,
    Peb,
};
use crate::resolve::{directory_at, export_table, nt_offset};
use crate::section::{section_has_kind, ImageSectionHeaders, SectionKind, SECTION_HEADER_SIZE};

verus! {

/// A range of process memory: its start address and its length in bytes.
#[derive(Clone, Copy, Debug, PartialEq, Eq, Structural)]
pub struct SectionRange {
    pub start: u64,
    pub len: u32,
}

/// Offset and length of the section table, when it fits in the image.
pub open spec fn section_table(img: Seq<u8>) -> Option<(int, int)> {
    match nt_offset(img) {
        Some(nt) => {
            let fh = ImageFileHeader::spec_read(img, nt + 4);
            let t = nt + 24 + fh.size_of_optional_header;
            let n = fh.number_of_sections as int;
            if in_bounds(img, t, SECTION_HEADER_SIZE * n) {
                Some((t, n))
            } else {
                None
            }
        },
        None => None,
    }
}

/// The section header at byte offset `off` is of kind `kind`.
pub open spec fn section_kind_at(img: Seq<u8>, off: int, kind: SectionKind) -> bool {
    section_has_kind(img.subrange(off, off + 8), u32_at(img, off + 36), kind)
}

/// Index of the first of headers `k..n` of the table at `t` that is of kind `kind`.
pub open spec fn first_section(img: Seq<u8>, t: int, n: int, kind: SectionKind, k: int) -> Option<
    int,
>
    decreases n - k,
{
    if k >= n {
        None
    } else if section_kind_at(img, t + SECTION_HEADER_SIZE * k, kind) {
        Some(k)
    } else {
        first_section(img, t, n, kind, k + 1)
    }
}

/// The memory of the first section of kind `kind` of the module at `base`.
pub open spec fn section_of(base: u64, img: Seq<u8>, kind: SectionKind) -> Option<SectionRange> {
    match section_table(img) {
        Some((t, n)) => match first_section(img, t, n, kind, 0) {
            Some(k) => {
                let off = t + SECTION_HEADER_SIZE * k;
                Some(
                    SectionRange {
                        start: (base + u32_at(img, off + 12)) as u64,
                        len: u32_at(img, off + 8),
                    },
                )
            },
            None => None,
        },
        None => None,
    }
}

impl LdrDataTableEntry {
    pub fn list(&self) -> (r: &ListEntry)
        ensures
            *r == self.in_load_order_links,
    {
        &self.in_load_order_links
    }

    pub fn full_dll_name(&self) -> (r: &[u16])
        ensures
            r@ == self.full_dll_name.buffer@,
    {
        self.full_dll_name.utf16()
    }

    pub fn base_dll_name(&self) -> (r: &[u16])
        ensures
            r@ == self.base_dll_name.buffer@,
    {
        self.base_dll_name.utf16()
    }

    pub fn dll_base(&self) -> (r: u64)
        ensures
            r == self.dll_base,
    {
        self.dll_base
    }

    pub fn dos_header(&self) -> (r: Option<ImageDosHeader>)
        ensures
            r == (if in_bounds(self.image@, 0, DOS_HEADER_SIZE as int) {
                Some(ImageDosHeader::spec_read(self.image@))
            } else {
                None::<ImageDosHeader>
            }),
    {
        ImageDosHeader::read(self.image.as_slice())
    }

    pub fn nt_headers(&self) -> (r: Option<ImageNtHeaders>)
        ensures
            r is Some <==> nt_offset(self.image@) is Some,
            r matches Some(h) ==> h.read_from(self.image@, nt_offset(self.image@).unwrap()),
    {
        match self.dos_header() {
            Some(d) => d.nt_headers(self.image.as_slice()),
            None => None,
        }
    }

    pub fn optional_header(&self) -> (r: Option<ImageOptionalHeader>)
        ensures
            r is Some <==> nt_offset(self.image@) is Some,
            r matches Some(h) ==> h.read_from(self.image@, nt_offset(self.image@).unwrap() + 24),
    {
        match self.nt_headers() {
            Some(h) => Some(h.optional_header),
            None => None,
        }
    }

    pub fn section_headers(&self) -> (r: Option<Vec<ImageSectionHeaders>>)
        ensures
            r is Some <==> section_table(self.image@) is Some,
            r matches Some(v) ==> v@.len() == section_table(self.image@).unwrap().1 && forall|
                k: int,
            |
                0 <= k < v@.len() ==> #[trigger] v@[k].read_from(
                    self.image@,
                    section_table(self.image@).unwrap().0 + SECTION_HEADER_SIZE * k,
                ),
    {
        match self.nt_headers() {
            Some(h) => h.section_headers(self.image.as_slice()),
            None => None,
        }
    }

    /// The memory of the first section of kind `kind`.
    pub fn section(&self, kind: SectionKind) -> (r: Option<SectionRange>)
        requires
            base_fits(self.dll_base),
        ensures
            r == section_of(self.dll_base, self.image@, kind),
    {
        let headers = match self.section_headers() {
            Some(v) => v,
            None => return None,
        };
        let ghost t = section_table(self.image@).unwrap().0;
        let mut k: usize = 0;
        while k < headers.len()
            invariant
                section_table(self.image@) == Some((t, headers@.len() as int)),
                forall|j: int|
                    0 <= j < headers@.len() ==> #[trigger] headers@[j].read_from(
                        self.image@,
                        t + SECTION_HEADER_SIZE * j,
                    ),
                first_section(self.image@, t, headers@.len() as int, kind, k as int)
                    == first_section(self.image@, t, headers@.len() as int, kind, 0),
                base_fits(self.dll_base),
            decreases headers.len() - k,
        {
            let h = &headers[k];
            assert(h.read_from(self.image@, t + SECTION_HEADER_SIZE * k));
            if h.is_kind(kind) {
                return Some(
                    SectionRange {
                        start: self.dll_base + h.virtual_address as u64,
                        len: h.virtual_size,
                    },
                );
            }
            k = k + 1;
        }
        None
    }

    /// The first executable section named ".text".
    pub fn code_section(&self) -> (r: Option<SectionRange>)
        requires
            base_fits(self.dll_base),
        ensures
            r == section_of(self.dll_base, self.image@, SectionKind::Code),
    {
        self.section(SectionKind::Code)
    }

    /// The first readable section named ".rdata".
    pub fn vmt_section(&self) -> (r: Option<SectionRange>)
        requires
            base_fits(self.dll_base),
        ensures
            r == section_of(self.dll_base, self.image@, SectionKind::ReadOnlyData),
    {
        self.section(SectionKind::ReadOnlyData)
    }

    /// The first readable section named ".data".
    pub fn data_section(&self) -> (r: Option<SectionRange>)
        requires
            base_fits(self.dll_base),
        ensures
            r == section_of(self.dll_base, self.image@, SectionKind::Data),
    {
        self.section(SectionKind::Data)
    }

    pub fn data_directory(&self, directory: ImageDirectoryEntry) -> (r: Option<ImageDataDirectory>)
        ensures
            r == directory_at(self.image@, directory.spec_index()),
    {
        match self.nt_headers() {
            Some(h) => {
                let d = *h.optional_header().data_directory(directory);
                let ghost i = directory.spec_index();
                assert(h.optional_header.data_directory@[i] == ImageDataDirectory::spec_read(
                    self.image@,
                    h.offset + 24 + 112 + 8 * i,
                ));
                Some(d)
            },
            None => None,
        }
    }

    /// The export directory that `data_directory` locates in this image.
    pub fn export_directory_from(&self, data_directory: &ImageDataDirectory) -> (r: Option<
        ImageExportDirectory,
    >)
        ensures
            r == (if in_bounds(
                self.image@,
                data_directory.virtual_address as int,
                EXPORT_DIRECTORY_SIZE as int,
            ) {
                Some(
                    ImageExportDirectory::spec_read(
                        self.image@,
                        data_directory.virtual_address as int,
                    ),
                )
            } else {
                None::<ImageExportDirectory>
            }),
    {
        ImageExportDirectory::read(self.image.as_slice(), data_directory.virtual_address as usize)
    }

    pub fn export_directory(&self) -> (r: Option<ImageExportDirectory>)
        ensures
            r == (match export_table(self.image@) {
                Some((_, ed)) => Some(ed),
                None => None::<ImageExportDirectory>,
            }),
    {
        match self.data_directory(ImageDirectoryEntry::Export) {
            Some(dd) => self.export_directory_from(&dd),
            None => None,
        }
    }

    /// Whether `name` matches this module's display name, as `name_matches` says.
    pub fn has_same_base_dll_name(&self, name: &str) -> (r: bool)
        ensures
            r == name_matches(self.base_dll_name.buffer@, name.spec_bytes()),
    {
        same_name(self.base_dll_name(), name.as_bytes())
    }

    /// A walk over the process's module list, in load order.
    pub fn iter(peb: &Peb) -> (r: ListEntryIterator)
        ensures
            r.rest(peb.ldr.entries@) == peb.ldr.module_order(),
    {
        peb.ldr().list().into_iter(&peb.ldr)
    }

    /// The first module, in load order, whose display name matches `name`.
    pub fn find<'a>(peb: &'a Peb, name: &str) -> (r: Option<&'a LdrDataTableEntry>)
        ensures
            (match find_in(peb.ldr.entries@, peb.ldr.module_order(), name.spec_bytes()) {
                Some(k) => r == Some(&peb.ldr.entries@[k as int]),
                None => r is None,
            }),
    {
        match find_index(&peb.ldr, name.as_bytes()) {
            Some(k) => Some(&peb.ldr.entries[k]),
            None => None,
        }
    }
}

} // verus!
