use vstd::prelude::*;
use crate::bytes::{ascii_lower, lower};
use crate::export::base_fits;

verus! {

/// A module's display name: UTF-16 code units, length-prefixed, with no terminator.
#[derive(Debug)]
pub struct UnicodeString {
    pub buffer: Vec<u16>,
}

impl UnicodeString {
    pub fn utf16(&self) -> (r: &[u16])
        ensures
            r@ == self.buffer@,
    {
        self.buffer.as_slice()
    }
}

/// One pair of links of the circular module list. A link holds the position of
/// the entry it reaches in the loader's entry table; a position outside the table
/// reaches no module entry (the list head, or null).
#[derive(Clone, Copy, Debug, PartialEq, Eq, Structural)]
pub struct ListEntry {
    pub flink: usize,
    pub blink: usize,
}

/// One module of the process: its links, its base address, its names and the
/// bytes of its mapped image, which start at the base address.
#[derive(Debug)]
pub struct LdrDataTableEntry {
    pub in_load_order_links: ListEntry,
    pub dll_base: u64,
    pub full_dll_name: UnicodeString,
    pub base_dll_name: UnicodeString,
    pub image: Vec<u8>,
}

/// The loader's record: the head of the load-order list and the table of entries
/// that the links point into.
#[derive(Debug)]
pub struct PebLdrData {
    pub in_load_order_module_list: ListEntry,
    pub entries: Vec<LdrDataTableEntry>,
}

/// The process control block, reduced to what reaches the loader's record.
#[derive(Debug)]
pub struct Peb {
    pub being_debugged: bool,
    pub ldr: PebLdrData,
}

/// The entries of a list walk: starting at `cur`, follow forward links until a
/// link is null or leaves the table, reaches an entry whose base address is null,
/// or comes back to `end`; never more than `fuel` entries.
pub open spec fn walk(ents: Seq<LdrDataTableEntry>, cur: Option<usize>, end: usize, fuel: nat) -> Seq<
    usize,
>
    decreases fuel,
{
    if fuel == 0 {
        Seq::empty()
    } else {
        match cur {
            None => Seq::empty(),
            Some(c) => if c >= ents.len() || ents[c as int].dll_base == 0 {
                Seq::empty()
            } else {
                let nx = ents[c as int].in_load_order_links.flink;
                seq![c] + walk(ents, if nx != end { Some(nx) } else { None }, end, (fuel - 1) as nat)
            },
        }
    }
}

/// A walk visits only entries of the table, with a non-null base address.
pub proof fn lemma_walk_in_table(
    ents: Seq<LdrDataTableEntry>,
    cur: Option<usize>,
    end: usize,
    fuel: nat,
)
    ensures
        forall|j: int|
            0 <= j < walk(ents, cur, end, fuel).len() ==> #[trigger] walk(ents, cur, end, fuel)[j]
                < ents.len() && ents[walk(ents, cur, end, fuel)[j] as int].dll_base != 0,
    decreases fuel,
{
    if fuel > 0 {
        if let Some(c) = cur {
            if c < ents.len() && ents[c as int].dll_base != 0 {
                let nx = ents[c as int].in_load_order_links.flink;
                let next = if nx != end {
                    Some(nx)
                } else {
                    None
                };
                lemma_walk_in_table(ents, next, end, (fuel - 1) as nat);
                let w = walk(ents, cur, end, fuel);
                assert forall|j: int| 0 < j < w.len() implies w[j] == walk(
                    ents,
                    next,
                    end,
                    (fuel - 1) as nat,
                )[j - 1] by {}
            }
        }
    }
}

impl PebLdrData {
    /// Every module's base address leaves room for any RVA past it.
    pub open spec fn wf(&self) -> bool {
        forall|i: int| 0 <= i < self.entries@.len() ==> base_fits(#[trigger] self.entries@[i].dll_base)
    }

    /// The positions of the loaded modules, in load order, as one walk visits them.
    pub open spec fn module_order(&self) -> Seq<usize> {
        let begin = self.in_load_order_module_list.flink;
        walk(self.entries@, Some(begin), begin, self.entries@.len())
    }

    pub fn list(&self) -> (r: &ListEntry)
        ensures
            *r == self.in_load_order_module_list,
    {
        &self.in_load_order_module_list
    }

    /// The positions of all loaded modules in load order.
    pub fn modules(&self) -> (r: Vec<usize>)
        ensures
            r@ == self.module_order(),
            forall|j: int| 0 <= j < r@.len() ==> #[trigger] r@[j] < self.entries@.len(),
    {
        proof {
            let begin = self.in_load_order_module_list.flink;
            lemma_walk_in_table(self.entries@, Some(begin), begin, self.entries@.len());
        }
        let mut it = self.list().into_iter(self);
        let mut out: Vec<usize> = Vec::new();
        loop
            invariant
                out@ + it.rest(self.entries@) == self.module_order(),
            ensures
                out@ == self.module_order(),
            decreases it.rest(self.entries@).len(),
        {
            match it.next(self) {
                Some(k) => {
                    out.push(k);
                    assert(out@ + it.rest(self.entries@) =~= self.module_order());
                },
                None => {
                    assert(out@ =~= self.module_order());
                    break ;
                },
            }
        }
        out
    }
}

impl Peb {
    pub fn ldr(&self) -> (r: &PebLdrData)
        ensures
            *r == self.ldr,
    {
        &self.ldr
    }
}

/// Walks the module list once, from a start captured when it is made.
#[derive(Clone, Copy, Debug)]
pub struct ListEntryIterator {
    current: Option<usize>,
    end: usize,
    remaining: usize,
}

impl ListEntry {
    /// The entry that the forward link reaches, if it reaches one.
    pub fn next<'a>(&self, ldr: &'a PebLdrData) -> (r: Option<&'a LdrDataTableEntry>)
        ensures
            self.flink < ldr.entries@.len() ==> r == Some(&ldr.entries@[self.flink as int]),
            self.flink >= ldr.entries@.len() ==> r is None,
    {
        if self.flink < ldr.entries.len() {
            Some(&ldr.entries[self.flink])
        } else {
            None
        }
    }

    pub fn into_iter(&self, ldr: &PebLdrData) -> (r: ListEntryIterator)
        ensures
            r.rest(ldr.entries@) == walk(ldr.entries@, Some(self.flink), self.flink, ldr.entries@.len()),
    {
        ListEntryIterator::new(self, ldr)
    }
}

impl ListEntryIterator {
    /// What the walk has left to visit.
    pub closed spec fn rest(&self, ents: Seq<LdrDataTableEntry>) -> Seq<usize> {
        walk(ents, self.current, self.end, self.remaining as nat)
    }

    /// Starts at the entry after `list` and stops on coming back to it, after at
    /// most as many steps as the table has entries.
    pub fn new(list: &ListEntry, ldr: &PebLdrData) -> (r: ListEntryIterator)
        ensures
            r.rest(ldr.entries@) == walk(ldr.entries@, Some(list.flink), list.flink, ldr.entries@.len()),
    {
        let begin = list.flink;
        ListEntryIterator { current: Some(begin), end: begin, remaining: ldr.entries.len() }
    }

    /// The next module's position, or `None` once the walk is over.
    pub fn next(&mut self, ldr: &PebLdrData) -> (r: Option<usize>)
        ensures
            old(self).rest(ldr.entries@).len() == 0 ==> r is None && final(self).rest(
                ldr.entries@,
            ).len() == 0,
            old(self).rest(ldr.entries@).len() > 0 ==> r == Some(old(self).rest(ldr.entries@)[0])
                && final(self).rest(ldr.entries@) == old(self).rest(ldr.entries@).drop_first(),
    {
        proof {
            reveal_with_fuel(walk, 2);
        }
        if self.remaining == 0 {
            return None;
        }
        match self.current {
            None => None,
            Some(c) => {
                if c >= ldr.entries.len() {
                    return None;
                }
                let entry = &ldr.entries[c];
                if entry.dll_base == 0 {
                    return None;
                }
                let nx = entry.in_load_order_links.flink;
                self.current = if nx != self.end {
                    Some(nx)
                } else {
                    None
                };
                self.remaining = self.remaining - 1;
                assert(old(self).rest(ldr.entries@).drop_first() =~= self.rest(ldr.entries@));
                Some(c)
            },
        }
    }
}

/// `name` matches the display name `dll` when, over the length of the shorter
/// of the two, each code unit cut to a byte and lower-cased equals the byte of
/// `name` lower-cased; a name that is a prefix of the other matches.
pub open spec fn name_matches(dll: Seq<u16>, name: Seq<u8>) -> bool {
    forall|i: int|
        0 <= i < dll.len() && i < name.len() ==> lower(#[trigger] dll[i] as u8) == lower(name[i])
}

/// The first module of `order` whose display name matches `name`.
pub open spec fn find_in(ents: Seq<LdrDataTableEntry>, order: Seq<usize>, name: Seq<u8>) -> Option<
    usize,
>
    decreases order.len(),
{
    if order.len() == 0 {
        None
    } else if name_matches(ents[order[0] as int].base_dll_name.buffer@, name) {
        Some(order[0])
    } else {
        find_in(ents, order.drop_first(), name)
    }
}

/// Compares a display name with `name` as `name_matches` says.
pub fn same_name(dll: &[u16], name: &[u8]) -> (r: bool)
    ensures
        r == name_matches(dll@, name@),
{
    let mut i: usize = 0;
    while i < dll.len() && i < name.len()
        invariant
            forall|j: int| 0 <= j < i ==> lower(#[trigger] dll@[j] as u8) == lower(name@[j]),
        decreases dll.len() - i,
    {
        let x = ascii_lower(dll[i] as u8);
        let y = ascii_lower(name[i]);
        if x != y {
            return false;
        }
        i = i + 1;
    }
    true
}

/// The first module, in load order, whose display name matches `name`.
pub fn find_index(ldr: &PebLdrData, name: &[u8]) -> (r: Option<usize>)
    ensures
        r == find_in(ldr.entries@, ldr.module_order(), name@),
        r matches Some(k) ==> k < ldr.entries@.len(),
{
    let order = ldr.modules();
    assert(order@.subrange(0, order@.len() as int) =~= order@);
    let mut i: usize = 0;
    while i < order.len()
        invariant
            order@ == ldr.module_order(),
            i <= order@.len(),
            find_in(ldr.entries@, order@.subrange(i as int, order@.len() as int), name@)
                == find_in(ldr.entries@, order@, name@),
            forall|j: int| 0 <= j < order@.len() ==> #[trigger] order@[j] < ldr.entries@.len(),
        decreases order.len() - i,
    {
        let k = order[i];
        assert(order@.subrange(i as int, order@.len() as int).drop_first() =~= order@.subrange(
            i + 1,
            order@.len() as int,
        ));
        if same_name(ldr.entries[k].base_dll_name.utf16(), name) {
            return Some(k);
        }
        i = i + 1;
    }
    None
}

} // verus!
