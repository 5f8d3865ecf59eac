use vstd::prelude::*;
use crate::bytes::{
    c_string_at, in_bounds, is_utf8, read_c_string, utf8_valid, read_u16, read_u16_at, read_u32, read_u32_at, u16_at,
    u32_at,
};

verus! {

/// Size in bytes of the export directory.
pub const EXPORT_DIRECTORY_SIZE: usize = 40;

/// The export directory: counts and the RVAs of its three parallel arrays.
#[derive(Clone, Copy, Debug, PartialEq, Eq, Structural)]
pub struct ImageExportDirectory {
    pub characteristics: u32,
    pub time_date_stamp: u32,
    pub major_version: u16,
    pub minor_version: u16,
    pub name: u32,
    pub base: u32,
    pub number_of_functions: u32,
    pub number_of_names: u32,
    pub address_of_functions: u32,
    pub address_of_names: u32,
    pub address_of_name_ordinals: u32,
}

/// An address `rva` bytes past `base`, for a base that leaves room for any RVA.
pub open spec fn base_fits(base: u64) -> bool {
    base as int + u32::MAX as int <= u64::MAX as int
}

impl ImageExportDirectory {
    pub open spec fn spec_read(b: Seq<u8>, off: int) -> ImageExportDirectory {
        ImageExportDirectory {
            characteristics: u32_at(b, off),
            time_date_stamp: u32_at(b, off + 4),
            major_version: u16_at(b, off + 8),
            minor_version: u16_at(b, off + 10),
            name: u32_at(b, off + 12),
            base: u32_at(b, off + 16),
            number_of_functions: u32_at(b, off + 20),
            number_of_names: u32_at(b, off + 24),
            address_of_functions: u32_at(b, off + 28),
            address_of_names: u32_at(b, off + 32),
            address_of_name_ordinals: u32_at(b, off + 36),
        }
    }

    /// Reads the export directory at byte offset `off`, or `None` when it does not fit.
    pub fn read(b: &[u8], off: usize) -> (r: Option<ImageExportDirectory>)
        ensures
            r == (if in_bounds(b@, off as int, EXPORT_DIRECTORY_SIZE as int) {
                Some(Self::spec_read(b@, off as int))
            } else {
                None::<ImageExportDirectory>
            }),
    {
        if off > b.len() || b.len() - off < EXPORT_DIRECTORY_SIZE {
            return None;
        }
        Some(
            ImageExportDirectory {
                characteristics: read_u32(b, off).unwrap(),
                time_date_stamp: read_u32(b, off + 4).unwrap(),
                major_version: read_u16(b, off + 8).unwrap(),
                minor_version: read_u16(b, off + 10).unwrap(),
                name: read_u32(b, off + 12).unwrap(),
                base: read_u32(b, off + 16).unwrap(),
                number_of_functions: read_u32(b, off + 20).unwrap(),
                number_of_names: read_u32(b, off + 24).unwrap(),
                address_of_functions: read_u32(b, off + 28).unwrap(),
                address_of_names: read_u32(b, off + 32).unwrap(),
                address_of_name_ordinals: read_u32(b, off + 36).unwrap(),
            },
        )
    }

    pub fn number_of_names(&self) -> (r: &u32)
        ensures
            *r == self.number_of_names,
    {
        &self.number_of_names
    }

    /// Address of the function-RVA array in a module loaded at `dll_base`.
    pub fn address_of_functions(&self, dll_base: u64) -> (r: u64)
        requires
            base_fits(dll_base),
        ensures
            r == dll_base + self.address_of_functions,
    {
        dll_base + self.address_of_functions as u64
    }

    /// Address of the name-RVA array in a module loaded at `dll_base`.
    pub fn address_of_names(&self, dll_base: u64) -> (r: u64)
        requires
            base_fits(dll_base),
        ensures
            r == dll_base + self.address_of_names,
    {
        dll_base + self.address_of_names as u64
    }

    /// Address of the ordinal array in a module loaded at `dll_base`.
    pub fn address_of_name_ordinals(&self, dll_base: u64) -> (r: u64)
        requires
            base_fits(dll_base),
        ensures
            r == dll_base + self.address_of_name_ordinals,
    {
        dll_base + self.address_of_name_ordinals as u64
    }

    /// RVA of the `i`-th exported name, if the name array holds it inside `b`.
    pub open spec fn spec_name_rva(&self, b: Seq<u8>, i: int) -> Option<u32> {
        let off = self.address_of_names + 4 * i;
        if in_bounds(b, off, 4) {
            Some(u32_at(b, off))
        } else {
            None
        }
    }

    /// Bytes of the `i`-th exported name, without its terminating zero.
    pub open spec fn spec_name(&self, b: Seq<u8>, i: int) -> Option<Seq<u8>> {
        match self.spec_name_rva(b, i) {
            Some(rva) => c_string_at(b, rva as int),
            None => None,
        }
    }

    /// The ordinal of the `i`-th exported name: an index into the function array.
    pub open spec fn spec_name_ordinal(&self, b: Seq<u8>, i: int) -> Option<u16> {
        let off = self.address_of_name_ordinals + 2 * i;
        if in_bounds(b, off, 2) {
            Some(u16_at(b, off))
        } else {
            None
        }
    }

    /// The function RVA of the `i`-th exported name, through its ordinal.
    pub open spec fn spec_function_rva(&self, b: Seq<u8>, i: int) -> Option<u32> {
        match self.spec_name_ordinal(b, i) {
            Some(ord) => {
                let off = self.address_of_functions + 4 * ord;
                if in_bounds(b, off, 4) {
                    Some(u32_at(b, off))
                } else {
                    None
                }
            },
            None => None,
        }
    }

    pub fn name_rva(&self, b: &[u8], index: &u32) -> (r: Option<u32>)
        ensures
            r == self.spec_name_rva(b@, *index as int),
    {
        read_u32_at(b, self.address_of_names as u64 + 4 * (*index as u64))
    }

    /// The `index`-th exported name, decoded: its bytes when they are UTF-8, and
    /// `None` when they cannot be read or fail to decode.
    pub fn name(&self, b: &[u8], index: &u32) -> (r: Option<Vec<u8>>)
        ensures
            r matches Some(v) ==> self.spec_name(b@, *index as int) == Some(v@) && is_utf8(v@),
            r is None ==> (self.spec_name(b@, *index as int) matches Some(s) ==> !is_utf8(s)),
    {
        let rva = match self.name_rva(b, index) {
            Some(rva) => rva,
            None => return None,
        };
        if rva as u64 >= b.len() as u64 {
            return None;
        }
        match read_c_string(b, rva as usize) {
            Some(v) => {
                if utf8_valid(v.as_slice()) {
                    Some(v)
                } else {
                    None
                }
            },
            None => None,
        }
    }

    pub fn name_ordinals(&self, b: &[u8], index: &u32) -> (r: Option<u16>)
        ensures
            r == self.spec_name_ordinal(b@, *index as int),
    {
        read_u16_at(b, self.address_of_name_ordinals as u64 + 2 * (*index as u64))
    }

    pub fn function_rva(&self, b: &[u8], index: &u32) -> (r: Option<u32>)
        ensures
            r == self.spec_function_rva(b@, *index as int),
    {
        match self.name_ordinals(b, index) {
            Some(ord) => {
                read_u32_at(b, self.address_of_functions as u64 + 4 * (ord as u64))
            },
            None => None,
        }
    }
}

} // verus!
