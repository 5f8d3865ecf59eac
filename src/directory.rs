use vstd::prelude::*;
use crate::bytes::{in_bounds, read_u32, u32_at};

verus! {

/// A (virtual address, size) pair locating one optional structure of an image.
#[derive(Clone, Copy, Debug, PartialEq, Eq, Structural)]
pub struct ImageDataDirectory {
    pub virtual_address: u32,
    pub size: u32,
}

/// Size in bytes of one data directory in an image.
pub const DATA_DIRECTORY_SIZE: usize = 8;

impl ImageDataDirectory {
    /// The directory stored at byte offset `off` of `b`.
    pub open spec fn spec_read(b: Seq<u8>, off: int) -> ImageDataDirectory {
        ImageDataDirectory { virtual_address: u32_at(b, off), size: u32_at(b, off + 4) }
    }

    /// Reads the directory at byte offset `off`, or `None` when it does not fit.
    pub fn read(b: &[u8], off: usize) -> (r: Option<ImageDataDirectory>)
        ensures
            r == (if in_bounds(b@, off as int, DATA_DIRECTORY_SIZE as int) {
                Some(Self::spec_read(b@, off as int))
            } else {
                None::<ImageDataDirectory>
            }),
    {
        if off > b.len() || b.len() - off < DATA_DIRECTORY_SIZE {
            return None;
        }
        let virtual_address = read_u32(b, off).unwrap();
        let size = read_u32(b, off + 4).unwrap();
        Some(ImageDataDirectory { virtual_address, size })
    }

    pub fn virtual_address(&self) -> (r: &u32)
        ensures
            *r == self.virtual_address,
    {
        &self.virtual_address
    }

    /// An export whose function RVA lies inside the export directory's own
    /// range, both ends included, names a forwarder string instead of code.
    pub open spec fn spec_is_forwarded_export(&self, rva: u32) -> bool {
        self.virtual_address <= rva && rva as int <= self.virtual_address as int + self.size as int
    }

    pub fn is_forwarded_export(&self, export_function_rva: u32) -> (r: bool)
        ensures
            r == self.spec_is_forwarded_export(export_function_rva),
    {
        export_function_rva >= self.virtual_address && export_function_rva - self.virtual_address
            <= self.size
    }
}

/// The sixteen slots of an image's data-directory array.
#[derive(Clone, Copy, Debug, PartialEq, Eq, Structural)]
pub enum ImageDirectoryEntry {
    Architecture,
    BaseReloc,
    BoundImport,
    ComDescriptor,
    Debug,
    DelayImport,
    Exception,
    Export,
    GlobalPtr,
    ImportAddressTable,
    Import,
    LoadConfig,
    Resource,
    Security,
    ThreadLocalStorage,
}

impl ImageDirectoryEntry {
    /// The slot of the data-directory array that the entry names.
    pub open spec fn spec_index(self) -> int {
        match self {
            ImageDirectoryEntry::Export => 0,
            ImageDirectoryEntry::Import => 1,
            ImageDirectoryEntry::Resource => 2,
            ImageDirectoryEntry::Exception => 3,
            ImageDirectoryEntry::Security => 4,
            ImageDirectoryEntry::BaseReloc => 5,
            ImageDirectoryEntry::Debug => 6,
            ImageDirectoryEntry::Architecture => 7,
            ImageDirectoryEntry::GlobalPtr => 8,
            ImageDirectoryEntry::ThreadLocalStorage => 9,
            ImageDirectoryEntry::LoadConfig => 10,
            ImageDirectoryEntry::BoundImport => 11,
            ImageDirectoryEntry::ImportAddressTable => 12,
            ImageDirectoryEntry::DelayImport => 13,
            ImageDirectoryEntry::ComDescriptor => 14,
        }
    }

    pub fn index(&self) -> (r: usize)
        ensures
            r as int == self.spec_index(),
            r < 16,
    {
        match self {
            ImageDirectoryEntry::Export => 0,
            ImageDirectoryEntry::Import => 1,
            ImageDirectoryEntry::Resource => 2,
            ImageDirectoryEntry::Exception => 3,
            ImageDirectoryEntry::Security => 4,
            ImageDirectoryEntry::BaseReloc => 5,
            ImageDirectoryEntry::Debug => 6,
            ImageDirectoryEntry::Architecture => 7,
            ImageDirectoryEntry::GlobalPtr => 8,
            ImageDirectoryEntry::ThreadLocalStorage => 9,
            ImageDirectoryEntry::LoadConfig => 10,
            ImageDirectoryEntry::BoundImport => 11,
            ImageDirectoryEntry::ImportAddressTable => 12,
            ImageDirectoryEntry::DelayImport => 13,
            ImageDirectoryEntry::ComDescriptor => 14,
        }
    }
}

} // verus!
