use vstd::prelude::*;
use vstd::string::StringSliceAdditionalSpecFns;
use crate::bytes::{c_string_at, in_bounds, is_utf8, read_c_string, utf8_valid};
use crate::directory::{ImageDataDirectory, ImageDirectoryEntry};
use crate::export::{base_fits, ImageExportDirectory, EXPORT_DIRECTORY_SIZE};
use crate::headers::{ImageDosHeader, DOS_HEADER_SIZE, NT_HEADERS_SIZE};
use crate::loader::{find_in, find_index, LdrDataTableEntry, Peb};

verus! {

/// Most forwarder hops that one resolution follows; a longer chain, or a cycle,
/// resolves to nothing.
pub const MAX_FORWARD_DEPTH: usize = 16;

/// The byte `.` that separates module and symbol in a forwarder string.
pub const DOT: u8 = 46;

/// Byte offset of the NT headers, when the DOS header and the NT headers fit.
pub open spec fn nt_offset(img: Seq<u8>) -> Option<int> {
    if in_bounds(img, 0, DOS_HEADER_SIZE as int) {
        let l = ImageDosHeader::spec_read(img).e_lfanew as int;
        if l >= 0 && in_bounds(img, l, NT_HEADERS_SIZE as int) {
            Some(l)
        } else {
            None
        }
    } else {
        None
    }
}

/// Slot `idx` of the image's data-directory array.
pub open spec fn directory_at(img: Seq<u8>, idx: int) -> Option<ImageDataDirectory> {
    match nt_offset(img) {
        Some(nt) => Some(ImageDataDirectory::spec_read(img, nt + 24 + 112 + 8 * idx)),
        None => None,
    }
}

/// The export data directory and the export directory that it locates.
pub open spec fn export_table(img: Seq<u8>) -> Option<(ImageDataDirectory, ImageExportDirectory)> {
    match directory_at(img, 0) {
        Some(dd) => if in_bounds(img, dd.virtual_address as int, EXPORT_DIRECTORY_SIZE as int) {
            Some((dd, ImageExportDirectory::spec_read(img, dd.virtual_address as int)))
        } else {
            None
        },
        None => None,
    }
}

/// The function RVA of the first export, from name index `i` on, whose name is
/// `name` and whose RVA can be read; names that cannot be read or do not decode
/// as UTF-8 are skipped.
pub open spec fn find_export(ed: ImageExportDirectory, img: Seq<u8>, name: Seq<u8>, i: int) -> Option<
    u32,
>
    decreases ed.number_of_names - i,
{
    if i >= ed.number_of_names {
        None
    } else if ed.spec_name(img, i) == Some(name) && is_utf8(name) && ed.spec_function_rva(
        img,
        i,
    ) is Some {
        ed.spec_function_rva(img, i)
    } else {
        find_export(ed, img, name, i + 1)
    }
}

/// As `find_export`, skipping every export that is forwarded.
pub open spec fn find_code_export(
    dd: ImageDataDirectory,
    ed: ImageExportDirectory,
    img: Seq<u8>,
    name: Seq<u8>,
    i: int,
) -> Option<u32>
    decreases ed.number_of_names - i,
{
    if i >= ed.number_of_names {
        None
    } else if ed.spec_name(img, i) == Some(name) && is_utf8(name) && ed.spec_function_rva(
        img,
        i,
    ) is Some && !dd.spec_is_forwarded_export(ed.spec_function_rva(img, i).unwrap()) {
        ed.spec_function_rva(img, i)
    } else {
        find_code_export(dd, ed, img, name, i + 1)
    }
}

/// Position of the last `c` among the first `n` bytes of `s`.
pub open spec fn last_index(s: Seq<u8>, c: u8, n: int) -> Option<int>
    decreases n,
{
    if n <= 0 {
        None
    } else if s[n - 1] == c {
        Some(n - 1)
    } else {
        last_index(s, c, n - 1)
    }
}

/// Address of the non-forwarded export `name` of the module at `base`.
pub open spec fn code_export_of(base: u64, img: Seq<u8>, name: Seq<u8>) -> Option<u64> {
    match export_table(img) {
        Some((dd, ed)) => match find_code_export(dd, ed, img, name, 0) {
            Some(rva) => Some((base + rva) as u64),
            None => None,
        },
        None => None,
    }
}

/// The first module of `order` with a non-forwarded export `name`, and its address.
pub open spec fn code_export_anywhere(
    ents: Seq<LdrDataTableEntry>,
    order: Seq<usize>,
    name: Seq<u8>,
) -> Option<u64>
    decreases order.len(),
{
    if order.len() == 0 {
        None
    } else {
        let e = ents[order[0] as int];
        match code_export_of(e.dll_base, e.image@, name) {
            Some(a) => Some(a),
            None => code_export_anywhere(ents, order.drop_first(), name),
        }
    }
}

/// Resolves `name` in the module at `base` with image `img`; forwarders are
/// followed through the modules `ents`, visited in `order`, at most `depth` hops.
pub open spec fn resolve_in(
    ents: Seq<LdrDataTableEntry>,
    order: Seq<usize>,
    base: u64,
    img: Seq<u8>,
    name: Seq<u8>,
    depth: nat,
) -> Option<u64>
    decreases depth, 1nat,
{
    match export_table(img) {
        None => None,
        Some((dd, ed)) => match find_export(ed, img, name, 0) {
            None => None,
            Some(rva) => if dd.spec_is_forwarded_export(rva) {
                match c_string_at(img, rva as int) {
                    Some(s) => if is_utf8(s) {
                        resolve_forwarded(ents, order, s, depth)
                    } else {
                        Some((base + rva) as u64)
                    },
                    None => Some((base + rva) as u64),
                }
            } else {
                Some((base + rva) as u64)
            },
        },
    }
}

/// Resolves the forwarder string `s`, "module.symbol" split at its last dot: in
/// the first module whose name matches, else as a non-forwarded export of any
/// module.
pub open spec fn resolve_forwarded(
    ents: Seq<LdrDataTableEntry>,
    order: Seq<usize>,
    s: Seq<u8>,
    depth: nat,
) -> Option<u64>
    decreases depth, 0nat,
{
    if depth == 0 {
        None
    } else {
        match last_index(s, DOT, s.len() as int) {
            None => None,
            Some(p) => {
                let module = s.subrange(0, p);
                let symbol = s.subrange(p + 1, s.len() as int);
                match find_in(ents, order, module) {
                    Some(k) => if k < ents.len() {
                        resolve_in(
                            ents,
                            order,
                            ents[k as int].dll_base,
                            ents[k as int].image@,
                            symbol,
                            (depth - 1) as nat,
                        )
                    } else {
                        None
                    },
                    None => code_export_anywhere(ents, order, symbol),
                }
            },
        }
    }
}

/// Tests two byte strings for equality.
fn bytes_eq(a: &[u8], b: &[u8]) -> (r: bool)
    ensures
        r == (a@ == b@),
{
    if a.len() != b.len() {
        return false;
    }
    let mut i: usize = 0;
    while i < a.len()
        invariant
            a@.len() == b@.len(),
            forall|j: int| 0 <= j < i ==> a@[j] == b@[j],
        decreases a.len() - i,
    {
        if a[i] != b[i] {
            return false;
        }
        i = i + 1;
    }
    assert(a@ =~= b@);
    true
}

/// Copies bytes `i` up to `j` of `b`.
fn copy_range(b: &[u8], i: usize, j: usize) -> (r: Vec<u8>)
    requires
        i <= j <= b@.len(),
    ensures
        r@ == b@.subrange(i as int, j as int),
{
    let mut out: Vec<u8> = Vec::new();
    let mut k: usize = i;
    while k < j
        invariant
            i <= k <= j <= b@.len(),
            out@ == b@.subrange(i as int, k as int),
        decreases j - k,
    {
        out.push(b[k]);
        k = k + 1;
        assert(out@ =~= b@.subrange(i as int, k as int));
    }
    out
}

/// Position of the last dot of `s`.
fn last_dot(s: &[u8]) -> (r: Option<usize>)
    ensures
        r matches Some(p) ==> last_index(s@, DOT, s@.len() as int) == Some(p as int) && p
            < s@.len(),
        r is None ==> last_index(s@, DOT, s@.len() as int) is None,
{
    let mut n: usize = s.len();
    while n > 0
        invariant
            n <= s@.len(),
            last_index(s@, DOT, s@.len() as int) == last_index(s@, DOT, n as int),
        decreases n,
    {
        if s[n - 1] == DOT {
            return Some(n - 1);
        }
        n = n - 1;
    }
    None
}

/// Reads the export data directory of `img` and the export directory it locates.
fn read_export_table(img: &[u8]) -> (r: Option<(ImageDataDirectory, ImageExportDirectory)>)
    ensures
        r == export_table(img@),
{
    let dos = match ImageDosHeader::read(img) {
        Some(d) => d,
        None => return None,
    };
    let nt = match dos.nt_headers(img) {
        Some(h) => h,
        None => return None,
    };
    let dd = *nt.optional_header().data_directory(ImageDirectoryEntry::Export);
    assert(nt.optional_header.data_directory@[0] == ImageDataDirectory::spec_read(
        img@,
        nt.offset + 24 + 112 + 8 * 0,
    ));
    match ImageExportDirectory::read(img, dd.virtual_address as usize) {
        Some(ed) => Some((dd, ed)),
        None => None,
    }
}

/// The function RVA of the first export named `name` whose RVA can be read.
fn find_export_rva(ed: &ImageExportDirectory, img: &[u8], name: &[u8]) -> (r: Option<u32>)
    ensures
        r == find_export(*ed, img@, name@, 0),
{
    let mut i: u32 = 0;
    while i < ed.number_of_names
        invariant
            find_export(*ed, img@, name@, i as int) == find_export(*ed, img@, name@, 0),
        decreases ed.number_of_names - i,
    {
        if let Some(candidate) = ed.name(img, &i) {
            if bytes_eq(candidate.as_slice(), name) {
                if let Some(rva) = ed.function_rva(img, &i) {
                    return Some(rva);
                }
            }
        }
        i = i + 1;
    }
    None
}

/// The function RVA of the first non-forwarded export named `name`.
fn find_code_export_rva(
    dd: &ImageDataDirectory,
    ed: &ImageExportDirectory,
    img: &[u8],
    name: &[u8],
) -> (r: Option<u32>)
    ensures
        r == find_code_export(*dd, *ed, img@, name@, 0),
{
    let mut i: u32 = 0;
    while i < ed.number_of_names
        invariant
            find_code_export(*dd, *ed, img@, name@, i as int) == find_code_export(
                *dd,
                *ed,
                img@,
                name@,
                0,
            ),
        decreases ed.number_of_names - i,
    {
        if let Some(candidate) = ed.name(img, &i) {
            if let Some(rva) = ed.function_rva(img, &i) {
                if !dd.is_forwarded_export(rva) && bytes_eq(candidate.as_slice(), name) {
                    return Some(rva);
                }
            }
        }
        i = i + 1;
    }
    None
}

impl LdrDataTableEntry {
    /// Resolves `name` in this module, following forwarders through the modules
    /// of `peb` for at most `depth` hops.
    pub fn export_function_within(&self, peb: &Peb, name: &[u8], depth: usize) -> (r: Option<u64>)
        requires
            peb.ldr.wf(),
            base_fits(self.dll_base),
        ensures
            r == resolve_in(
                peb.ldr.entries@,
                peb.ldr.module_order(),
                self.dll_base,
                self.image@,
                name@,
                depth as nat,
            ),
        decreases depth, 1nat,
    {
        let (dd, ed) = match read_export_table(self.image.as_slice()) {
            Some(t) => t,
            None => return None,
        };
        let rva = match find_export_rva(&ed, self.image.as_slice(), name) {
            Some(rva) => rva,
            None => return None,
        };
        let address = self.dll_base + rva as u64;
        if dd.is_forwarded_export(rva) {
            if let Some(forwarded) = read_c_string(self.image.as_slice(), rva as usize) {
                if utf8_valid(forwarded.as_slice()) {
                    return LdrDataTableEntry::resolve_forwarded_export(
                        peb,
                        forwarded.as_slice(),
                        depth,
                    );
                }
            }
        }
        Some(address)
    }

    /// Resolves the forwarder string `forwarded` ("module.symbol", split at its
    /// last dot): in the first module whose name matches, else as a non-forwarded
    /// export of any loaded module, with at most `depth` hops.
    pub fn resolve_forwarded_export(peb: &Peb, forwarded: &[u8], depth: usize) -> (r: Option<u64>)
        requires
            peb.ldr.wf(),
        ensures
            r == resolve_forwarded(
                peb.ldr.entries@,
                peb.ldr.module_order(),
                forwarded@,
                depth as nat,
            ),
        decreases depth, 0nat,
    {
        if depth == 0 {
            return None;
        }
        let p = match last_dot(forwarded) {
            Some(p) => p,
            None => return None,
        };
        let module = copy_range(forwarded, 0, p);
        let len = forwarded.len();
        let symbol = copy_range(forwarded, p + 1, len);
        match find_index(&peb.ldr, module.as_slice()) {
            Some(k) => {
                let entry = &peb.ldr.entries[k];
                assert(base_fits(peb.ldr.entries@[k as int].dll_base));
                entry.export_function_within(peb, symbol.as_slice(), depth - 1)
            },
            None => {
                let order = peb.ldr.modules();
                assert(order@.subrange(0, order@.len() as int) =~= order@);
                assert(resolve_forwarded(
                    peb.ldr.entries@,
                    peb.ldr.module_order(),
                    forwarded@,
                    depth as nat,
                ) == code_export_anywhere(peb.ldr.entries@, order@, symbol@));
                let mut i: usize = 0;
                while i < order.len()
                    invariant
                        peb.ldr.wf(),
                        order@ == peb.ldr.module_order(),
                        resolve_forwarded(
                            peb.ldr.entries@,
                            peb.ldr.module_order(),
                            forwarded@,
                            depth as nat,
                        ) == code_export_anywhere(peb.ldr.entries@, order@, symbol@),
                        i <= order@.len(),
                        forall|j: int| 0 <= j < order@.len() ==> #[trigger] order@[j] < peb.ldr.entries@.len(),
                        code_export_anywhere(
                            peb.ldr.entries@,
                            order@.subrange(i as int, order@.len() as int),
                            symbol@,
                        ) == code_export_anywhere(peb.ldr.entries@, order@, symbol@),
                    decreases order.len() - i,
                {
                    assert(order@.subrange(i as int, order@.len() as int)[0] == order@[i as int]);
                    assert(order@.subrange(i as int, order@.len() as int).drop_first()
                        =~= order@.subrange(i + 1, order@.len() as int));
                    let entry = &peb.ldr.entries[order[i]];
                    assert(base_fits(peb.ldr.entries@[order@[i as int] as int].dll_base));
                    let found = entry.non_forwarded_export_function(symbol.as_slice());
                    if found.is_some() {
                        return found;
                    }
                    i = i + 1;
                }
                None
            },
        }
    }

    /// Address of the non-forwarded export `name` of this module.
    fn non_forwarded_export_function(&self, name: &[u8]) -> (r: Option<u64>)
        requires
            base_fits(self.dll_base),
        ensures
            r == code_export_of(self.dll_base, self.image@, name@),
    {
        let (dd, ed) = match read_export_table(self.image.as_slice()) {
            Some(t) => t,
            None => return None,
        };
        match find_code_export_rva(&dd, &ed, self.image.as_slice(), name) {
            Some(rva) => Some(self.dll_base + rva as u64),
            None => None,
        }
    }

    /// Resolves `name` in this module, as `resolve_in` says, following at most
    /// `MAX_FORWARD_DEPTH` forwarder hops.
    pub fn export_function(&self, peb: &Peb, name: &str) -> (r: Option<u64>)
        requires
            peb.ldr.wf(),
            base_fits(self.dll_base),
        ensures
            r == resolve_in(
                peb.ldr.entries@,
                peb.ldr.module_order(),
                self.dll_base,
                self.image@,
                name.spec_bytes(),
                MAX_FORWARD_DEPTH as nat,
            ),
    {
        self.export_function_within(peb, name.as_bytes(), MAX_FORWARD_DEPTH)
    }
}

} // verus!
