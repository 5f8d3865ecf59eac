use vstd::prelude::*;
use crate::bytes::{in_bounds, read_u32, u32_at};

verus! {

/// Size in bytes of one section header in an image.
pub const SECTION_HEADER_SIZE: usize = 40;

/// Characteristics bit of a section whose memory can be executed.
pub const MEM_EXECUTE: u32 = 0x2000_0000;

/// Characteristics bit of a section whose memory can be read.
pub const MEM_READ: u32 = 0x4000_0000;

/// One entry of an image's section table.
#[derive(Clone, Copy, Debug)]
pub struct ImageSectionHeaders {
    pub name: [u8; 8],
    pub virtual_size: u32,
    pub virtual_address: u32,
    pub characteristics: u32,
}

/// `name` is the eight-byte, zero-padded form of `s`.
pub open spec fn name_is(name: Seq<u8>, s: Seq<u8>) -> bool {
    &&& name.len() == 8
    &&& s.len() <= 8
    &&& name.subrange(0, s.len() as int) == s
    &&& forall|k: int| s.len() <= k < 8 ==> name[k] == 0
}

/// The name ".text".
pub open spec fn text_name() -> Seq<u8> {
    seq![46u8, 116u8, 101u8, 120u8, 116u8]
}

/// The name ".rdata".
pub open spec fn rdata_name() -> Seq<u8> {
    seq![46u8, 114u8, 100u8, 97u8, 116u8, 97u8]
}

/// The name ".data".
pub open spec fn data_name() -> Seq<u8> {
    seq![46u8, 100u8, 97u8, 116u8, 97u8]
}

/// Tests whether the zero-padded section name `name` is `s`.
fn has_name(name: &[u8; 8], s: &[u8]) -> (r: bool)
    requires
        s@.len() <= 8,
    ensures
        r == name_is(name@, s@),
{
    let mut i: usize = 0;
    while i < 8
        invariant
            name@.len() == 8,
            s@.len() <= 8,
            forall|k: int| 0 <= k < i && k < s@.len() ==> name@[k] == s@[k],
            forall|k: int| s@.len() <= k < i ==> name@[k] == 0,
        decreases 8 - i,
    {
        let expected: u8 = if i < s.len() {
            s[i]
        } else {
            0
        };
        if name[i] != expected {
            assert(!name_is(name@, s@)) by {
                if i < s@.len() {
                    assert(name@.subrange(0, s@.len() as int)[i as int] != s@[i as int]);
                }
            }
            return false;
        }
        i = i + 1;
    }
    assert(name@.subrange(0, s@.len() as int) =~= s@);
    true
}

/// The three kinds of section that the classifier recognises.
#[derive(Clone, Copy, Debug, PartialEq, Eq, Structural)]
pub enum SectionKind {
    Code,
    ReadOnlyData,
    Data,
}

/// A section with name `name` and characteristics `ch` is of kind `kind`.
pub open spec fn section_has_kind(name: Seq<u8>, ch: u32, kind: SectionKind) -> bool {
    match kind {
        SectionKind::Code => ch & MEM_EXECUTE != 0 && name_is(name, text_name()),
        SectionKind::ReadOnlyData => ch & MEM_READ != 0 && name_is(name, rdata_name()),
        SectionKind::Data => ch & MEM_READ != 0 && name_is(name, data_name()),
    }
}

impl ImageSectionHeaders {
    pub fn is_kind(&self, kind: SectionKind) -> (r: bool)
        ensures
            r == section_has_kind(self.name@, self.characteristics, kind),
    {
        match kind {
            SectionKind::Code => self.is_code_section(),
            SectionKind::ReadOnlyData => self.is_vmt_section(),
            SectionKind::Data => self.is_data_section(),
        }
    }

    /// This header was read from byte offset `off` of `b`.
    pub open spec fn read_from(&self, b: Seq<u8>, off: int) -> bool {
        &&& self.name@ == b.subrange(off, off + 8)
        &&& self.virtual_size == u32_at(b, off + 8)
        &&& self.virtual_address == u32_at(b, off + 12)
        &&& self.characteristics == u32_at(b, off + 36)
    }

    /// Reads the section header at byte offset `off`, or `None` when it does not fit.
    pub fn read(b: &[u8], off: usize) -> (r: Option<ImageSectionHeaders>)
        ensures
            r is Some <==> in_bounds(b@, off as int, SECTION_HEADER_SIZE as int),
            r matches Some(h) ==> h.read_from(b@, off as int),
    {
        if off > b.len() || b.len() - off < SECTION_HEADER_SIZE {
            return None;
        }
        let name: [u8; 8] = [
            b[off],
            b[off + 1],
            b[off + 2],
            b[off + 3],
            b[off + 4],
            b[off + 5],
            b[off + 6],
            b[off + 7],
        ];
        assert(name@ =~= b@.subrange(off as int, off + 8));
        let virtual_size = read_u32(b, off + 8).unwrap();
        let virtual_address = read_u32(b, off + 12).unwrap();
        let characteristics = read_u32(b, off + 36).unwrap();
        Some(ImageSectionHeaders { name, virtual_size, virtual_address, characteristics })
    }

    pub fn name(&self) -> (r: &[u8; 8])
        ensures
            r@ == self.name@,
    {
        &self.name
    }

    pub fn virtual_address(&self) -> (r: &u32)
        ensures
            *r == self.virtual_address,
    {
        &self.virtual_address
    }

    pub fn virtual_size(&self) -> (r: &u32)
        ensures
            *r == self.virtual_size,
    {
        &self.virtual_size
    }

    pub open spec fn spec_is_executable(&self) -> bool {
        self.characteristics & MEM_EXECUTE != 0
    }

    pub open spec fn spec_is_readable(&self) -> bool {
        self.characteristics & MEM_READ != 0
    }

    pub fn is_executable(&self) -> (r: bool)
        ensures
            r == self.spec_is_executable(),
    {
        self.characteristics & MEM_EXECUTE != 0
    }

    pub fn is_readable(&self) -> (r: bool)
        ensures
            r == self.spec_is_readable(),
    {
        self.characteristics & MEM_READ != 0
    }

    /// An executable section named ".text".
    pub open spec fn spec_is_code_section(&self) -> bool {
        self.spec_is_executable() && name_is(self.name@, text_name())
    }

    /// A readable section named ".rdata".
    pub open spec fn spec_is_vmt_section(&self) -> bool {
        self.spec_is_readable() && name_is(self.name@, rdata_name())
    }

    /// A readable section named ".data".
    pub open spec fn spec_is_data_section(&self) -> bool {
        self.spec_is_readable() && name_is(self.name@, data_name())
    }

    pub fn is_code_section(&self) -> (r: bool)
        ensures
            r == self.spec_is_code_section(),
    {
        let text: [u8; 5] = [46, 116, 101, 120, 116];
        assert(text@ =~= text_name());
        self.is_executable() && has_name(&self.name, text.as_slice())
    }

    pub fn is_vmt_section(&self) -> (r: bool)
        ensures
            r == self.spec_is_vmt_section(),
    {
        let rdata: [u8; 6] = [46, 114, 100, 97, 116, 97];
        assert(rdata@ =~= rdata_name());
        self.is_readable() && has_name(&self.name, rdata.as_slice())
    }

    pub fn is_data_section(&self) -> (r: bool)
        ensures
            r == self.spec_is_data_section(),
    {
        let data: [u8; 5] = [46, 100, 97, 116, 97];
        assert(data@ =~= data_name());
        self.is_readable() && has_name(&self.name, data.as_slice())
    }
}

/// A section named ".text" whose execute and read bits are both set is a code
/// section; one named ".rdata" with only the read bit set is read-only data and
/// not code; one with neither bit set is none of the three kinds.
pub proof fn lemma_section_classification(h: ImageSectionHeaders)
    ensures
        name_is(h.name@, text_name()) && h.characteristics == (MEM_EXECUTE | MEM_READ)
            ==> h.spec_is_code_section(),
        name_is(h.name@, rdata_name()) && h.characteristics == MEM_READ
            ==> h.spec_is_vmt_section() && !h.spec_is_code_section(),
        h.characteristics & (MEM_EXECUTE | MEM_READ) == 0 ==> !h.spec_is_code_section()
            && !h.spec_is_vmt_section() && !h.spec_is_data_section(),
{
    let c = h.characteristics;
    assert((0x2000_0000u32 | 0x4000_0000u32) & 0x2000_0000u32 != 0) by (bit_vector);
    assert(0x4000_0000u32 & 0x4000_0000u32 != 0) by (bit_vector);
    assert(0x4000_0000u32 & 0x2000_0000u32 == 0) by (bit_vector);
    assert(c & (0x2000_0000u32 | 0x4000_0000u32) == 0 ==> c & 0x2000_0000u32 == 0 && c
        & 0x4000_0000u32 == 0) by (bit_vector);
}

} // verus!
