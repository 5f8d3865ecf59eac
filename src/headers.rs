use vstd::prelude::*;
use crate::bytes::{in_bounds, read_u16, read_u32, u16_at, u32_at};
use crate::directory::{ImageDataDirectory, ImageDirectoryEntry, DATA_DIRECTORY_SIZE};
use crate::section::{ImageSectionHeaders, SECTION_HEADER_SIZE};

verus! {

/// Size in bytes of the DOS header at the start of an image.
pub const DOS_HEADER_SIZE: usize = 64;

/// Byte offset of `e_lfanew` inside the DOS header.
pub const E_LFANEW_OFFSET: usize = 60;

/// Size in bytes of the file header.
pub const FILE_HEADER_SIZE: usize = 20;

/// Size in bytes of the 64-bit optional header with its sixteen data directories.
pub const OPTIONAL_HEADER_SIZE: usize = 240;

/// Byte offset of the data-directory array inside the optional header.
pub const DATA_DIRECTORIES_OFFSET: usize = 112;

/// Number of slots in the data-directory array.
pub const NUMBER_OF_DIRECTORIES: usize = 16;

/// Byte offset of the optional header inside the NT headers.
pub const OPTIONAL_HEADER_OFFSET: usize = 24;

/// Size in bytes of the NT headers: signature, file header and optional header.
pub const NT_HEADERS_SIZE: usize = 264;

/// The fixed prefix of an image; it locates the NT headers.
#[derive(Clone, Copy, Debug, PartialEq, Eq, Structural)]
pub struct ImageDosHeader {
    pub e_magic: u16,
    /// Byte displacement of the NT headers from the image base.
    pub e_lfanew: i32,
}

impl ImageDosHeader {
    pub open spec fn spec_read(b: Seq<u8>) -> ImageDosHeader {
        ImageDosHeader { e_magic: u16_at(b, 0), e_lfanew: u32_at(b, 60) as i32 }
    }

    /// Reads the DOS header at the start of `b`, or `None` when `b` is too short.
    pub fn read(b: &[u8]) -> (r: Option<ImageDosHeader>)
        ensures
            r == (if in_bounds(b@, 0, DOS_HEADER_SIZE as int) {
                Some(Self::spec_read(b@))
            } else {
                None::<ImageDosHeader>
            }),
    {
        if b.len() < DOS_HEADER_SIZE {
            return None;
        }
        let e_magic = read_u16(b, 0).unwrap();
        let raw = read_u32(b, E_LFANEW_OFFSET).unwrap();
        Some(ImageDosHeader { e_magic, e_lfanew: raw as i32 })
    }

    /// The NT headers that `e_lfanew` locates, or `None` when the displacement is
    /// negative or the headers do not fit in `b`.
    pub fn nt_headers(&self, b: &[u8]) -> (r: Option<ImageNtHeaders>)
        ensures
            r is Some <==> self.e_lfanew >= 0 && in_bounds(
                b@,
                self.e_lfanew as int,
                NT_HEADERS_SIZE as int,
            ),
            r matches Some(h) ==> h.read_from(b@, self.e_lfanew as int),
    {
        if self.e_lfanew < 0 {
            return None;
        }
        ImageNtHeaders::read(b, self.e_lfanew as usize)
    }
}

/// The file header: machine, section count and the size of the optional header.
#[derive(Clone, Copy, Debug, PartialEq, Eq, Structural)]
pub struct ImageFileHeader {
    pub machine: u16,
    pub number_of_sections: u16,
    pub time_date_stamp: u32,
    pub pointer_to_symbol_table: u32,
    pub number_of_symbols: u32,
    pub size_of_optional_header: u16,
    pub characteristics: u16,
}

impl ImageFileHeader {
    pub open spec fn spec_read(b: Seq<u8>, off: int) -> ImageFileHeader {
        ImageFileHeader {
            machine: u16_at(b, off),
            number_of_sections: u16_at(b, off + 2),
            time_date_stamp: u32_at(b, off + 4),
            pointer_to_symbol_table: u32_at(b, off + 8),
            number_of_symbols: u32_at(b, off + 12),
            size_of_optional_header: u16_at(b, off + 16),
            characteristics: u16_at(b, off + 18),
        }
    }

    /// Reads the file header at byte offset `off`, or `None` when it does not fit.
    pub fn read(b: &[u8], off: usize) -> (r: Option<ImageFileHeader>)
        ensures
            r == (if in_bounds(b@, off as int, FILE_HEADER_SIZE as int) {
                Some(Self::spec_read(b@, off as int))
            } else {
                None::<ImageFileHeader>
            }),
    {
        if off > b.len() || b.len() - off < FILE_HEADER_SIZE {
            return None;
        }
        Some(
            ImageFileHeader {
                machine: read_u16(b, off).unwrap(),
                number_of_sections: read_u16(b, off + 2).unwrap(),
                time_date_stamp: read_u32(b, off + 4).unwrap(),
                pointer_to_symbol_table: read_u32(b, off + 8).unwrap(),
                number_of_symbols: read_u32(b, off + 12).unwrap(),
                size_of_optional_header: read_u16(b, off + 16).unwrap(),
                characteristics: read_u16(b, off + 18).unwrap(),
            },
        )
    }

    pub fn number_of_sections(&self) -> (r: &u16)
        ensures
            *r == self.number_of_sections,
    {
        &self.number_of_sections
    }

    pub fn size_of_optional_header(&self) -> (r: &u16)
        ensures
            *r == self.size_of_optional_header,
    {
        &self.size_of_optional_header
    }
}

/// The 64-bit optional header: the fields this library reads, and the
/// sixteen-slot data-directory array.
#[derive(Debug)]
pub struct ImageOptionalHeader {
    pub magic: u16,
    pub address_of_entry_point: u32,
    pub size_of_image: u32,
    pub size_of_headers: u32,
    pub number_of_rva_and_sizes: u32,
    pub data_directory: Vec<ImageDataDirectory>,
}

impl ImageOptionalHeader {
    /// The array always holds sixteen slots, whatever `number_of_rva_and_sizes` says.
    pub open spec fn wf(&self) -> bool {
        self.data_directory@.len() == NUMBER_OF_DIRECTORIES
    }

    /// This header was read from byte offset `off` of `b`.
    pub open spec fn read_from(&self, b: Seq<u8>, off: int) -> bool {
        &&& self.wf()
        &&& self.magic == u16_at(b, off)
        &&& self.address_of_entry_point == u32_at(b, off + 16)
        &&& self.size_of_image == u32_at(b, off + 56)
        &&& self.size_of_headers == u32_at(b, off + 60)
        &&& self.number_of_rva_and_sizes == u32_at(b, off + 108)
        &&& forall|i: int|
            0 <= i < NUMBER_OF_DIRECTORIES ==> #[trigger] self.data_directory@[i]
                == ImageDataDirectory::spec_read(b, off + 112 + 8 * i)
    }

    /// Reads the optional header at byte offset `off`, or `None` when it does not fit.
    pub fn read(b: &[u8], off: usize) -> (r: Option<ImageOptionalHeader>)
        ensures
            r is Some <==> in_bounds(b@, off as int, OPTIONAL_HEADER_SIZE as int),
            r matches Some(h) ==> h.read_from(b@, off as int),
    {
        if off > b.len() || b.len() - off < OPTIONAL_HEADER_SIZE {
            return None;
        }
        let mut data_directory: Vec<ImageDataDirectory> = Vec::new();
        let mut i: usize = 0;
        while i < NUMBER_OF_DIRECTORIES
            invariant
                in_bounds(b@, off as int, OPTIONAL_HEADER_SIZE as int),
                off + OPTIONAL_HEADER_SIZE <= b.len(),
                i <= NUMBER_OF_DIRECTORIES,
                data_directory@.len() == i,
                forall|k: int|
                    0 <= k < i ==> #[trigger] data_directory@[k] == ImageDataDirectory::spec_read(
                        b@,
                        off + 112 + 8 * k,
                    ),
            decreases NUMBER_OF_DIRECTORIES - i,
        {
            let d = ImageDataDirectory::read(b, off + DATA_DIRECTORIES_OFFSET + i
                * DATA_DIRECTORY_SIZE).unwrap();
            data_directory.push(d);
            i = i + 1;
        }
        Some(
            ImageOptionalHeader {
                magic: read_u16(b, off).unwrap(),
                address_of_entry_point: read_u32(b, off + 16).unwrap(),
                size_of_image: read_u32(b, off + 56).unwrap(),
                size_of_headers: read_u32(b, off + 60).unwrap(),
                number_of_rva_and_sizes: read_u32(b, off + 108).unwrap(),
                data_directory,
            },
        )
    }

    /// The slot of the data-directory array that `directory` names.
    pub fn data_directory(&self, directory: ImageDirectoryEntry) -> (r: &ImageDataDirectory)
        requires
            self.wf(),
        ensures
            *r == self.data_directory@[directory.spec_index()],
    {
        &self.data_directory[directory.index()]
    }
}

/// The NT headers: signature, file header and optional header, with the byte
/// offset in the image at which they stand.
#[derive(Debug)]
pub struct ImageNtHeaders {
    pub offset: usize,
    pub signature: u32,
    pub file_header: ImageFileHeader,
    pub optional_header: ImageOptionalHeader,
}

impl ImageNtHeaders {
    /// These headers were read from byte offset `off` of `b`.
    pub open spec fn read_from(&self, b: Seq<u8>, off: int) -> bool {
        &&& self.offset == off
        &&& self.signature == u32_at(b, off)
        &&& self.file_header == ImageFileHeader::spec_read(b, off + 4)
        &&& self.optional_header.read_from(b, off + 24)
    }

    /// Reads the NT headers at byte offset `off`, or `None` when they do not fit.
    pub fn read(b: &[u8], off: usize) -> (r: Option<ImageNtHeaders>)
        ensures
            r is Some <==> in_bounds(b@, off as int, NT_HEADERS_SIZE as int),
            r matches Some(h) ==> h.read_from(b@, off as int),
    {
        if off > b.len() || b.len() - off < NT_HEADERS_SIZE {
            return None;
        }
        let signature = read_u32(b, off).unwrap();
        let file_header = ImageFileHeader::read(b, off + 4).unwrap();
        let optional_header = ImageOptionalHeader::read(b, off + OPTIONAL_HEADER_OFFSET).unwrap();
        Some(ImageNtHeaders { offset: off, signature, file_header, optional_header })
    }

    pub fn optional_header(&self) -> (r: &ImageOptionalHeader)
        ensures
            *r == self.optional_header,
    {
        &self.optional_header
    }

    /// Byte offset of the section table: the size that the file header gives
    /// for the optional header, counted from the optional header's start.
    pub open spec fn section_table_offset(&self) -> int {
        self.offset + OPTIONAL_HEADER_OFFSET + self.file_header.size_of_optional_header
    }

    /// The section table, `number_of_sections` headers long, or `None` when it
    /// does not fit in `b`.
    pub fn section_headers(&self, b: &[u8]) -> (r: Option<Vec<ImageSectionHeaders>>)
        ensures
            r is Some <==> in_bounds(
                b@,
                self.section_table_offset(),
                SECTION_HEADER_SIZE * self.file_header.number_of_sections,
            ),
            r matches Some(v) ==> v@.len() == self.file_header.number_of_sections && forall|k: int|
                0 <= k < v@.len() ==> #[trigger] v@[k].read_from(
                    b@,
                    self.section_table_offset() + SECTION_HEADER_SIZE * k,
                ),
    {
        let len = b.len();
        let n = self.file_header.number_of_sections as usize;
        let table = match self.offset.checked_add(
            OPTIONAL_HEADER_OFFSET + self.file_header.size_of_optional_header as usize,
        ) {
            Some(t) => t,
            None => return None,
        };
        let total = SECTION_HEADER_SIZE * n;
        if table > b.len() || b.len() - table < total {
            return None;
        }
        let mut out: Vec<ImageSectionHeaders> = Vec::new();
        let mut k: usize = 0;
        while k < n
            invariant
                n == self.file_header.number_of_sections,
                table == self.section_table_offset(),
                in_bounds(b@, table as int, SECTION_HEADER_SIZE * n),
                table + SECTION_HEADER_SIZE * n <= b.len(),
                k <= n,
                out@.len() == k,
                forall|j: int|
                    0 <= j < k ==> #[trigger] out@[j].read_from(
                        b@,
                        table + SECTION_HEADER_SIZE * j,
                    ),
            decreases n - k,
        {
            assert(SECTION_HEADER_SIZE * k + SECTION_HEADER_SIZE <= SECTION_HEADER_SIZE * n)
                by (nonlinear_arith)
                requires
                    k < n,
            ;
            let h = ImageSectionHeaders::read(b, table + SECTION_HEADER_SIZE * k).unwrap();
            out.push(h);
            k = k + 1;
        }
        Some(out)
    }
}

} // verus!
