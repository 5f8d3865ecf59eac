use vstd::prelude::*;
use crate::bytes::lower;
use crate::export::base_fits;
use crate::loader::{find_in, lemma_walk_in_table, name_matches, walk, LdrDataTableEntry, PebLdrData};
use crate::resolve::{export_table, find_export, last_index, resolve_in, DOT};
use crate::bytes::{c_string_at, is_utf8};
use vstd::set_lib::{lemma_int_range, lemma_len_subset, set_int_range};

verus! {

/// The `i`-th name of the export table of `img` is `name`, its function RVA is
/// `rva`, and no earlier readable entry carries the same name.
pub open spec fn first_export_at(img: Seq<u8>, name: Seq<u8>, i: int, rva: u32) -> bool {
    match export_table(img) {
        Some((_, ed)) => {
            &&& 0 <= i < ed.number_of_names
            &&& ed.spec_name(img, i) == Some(name)
            &&& ed.spec_function_rva(img, i) == Some(rva)
            &&& forall|j: int|
                0 <= j < i ==> !(ed.spec_name(img, j) == Some(name) && (
                #[trigger] ed.spec_function_rva(img, j)) is Some)
        },
        None => false,
    }
}

/// `rva` is not inside the export directory's range of `img`: it names code.
pub open spec fn not_forwarded(img: Seq<u8>, rva: u32) -> bool {
    match export_table(img) {
        Some((dd, _)) => !dd.spec_is_forwarded_export(rva),
        None => false,
    }
}

/// `rva` is inside the export directory's range of `img`: it names a forwarder.
pub open spec fn forwarded(img: Seq<u8>, rva: u32) -> bool {
    match export_table(img) {
        Some((dd, _)) => dd.spec_is_forwarded_export(rva),
        None => false,
    }
}

proof fn lemma_find_export_first(img: Seq<u8>, name: Seq<u8>, i: int, k: int, rva: u32)
    requires
        first_export_at(img, name, k, rva),
        is_utf8(name),
        0 <= i <= k,
    ensures
        find_export(export_table(img).unwrap().1, img, name, i) == Some(rva),
    decreases k - i,
{
    let ed = export_table(img).unwrap().1;
    if i < k {
        assert(!(ed.spec_name(img, i) == Some(name) && ed.spec_function_rva(img, i) is Some));
        lemma_find_export_first(img, name, i + 1, k, rva);
    }
}

/// A name's first export entry that is not forwarded resolves to the module's
/// base address plus its RVA, whatever the other modules and the hop budget.
/// The name is UTF-8, as every `str` is.
pub proof fn lemma_code_export_resolves(
    ents: Seq<LdrDataTableEntry>,
    order: Seq<usize>,
    base: u64,
    img: Seq<u8>,
    name: Seq<u8>,
    i: int,
    rva: u32,
    depth: nat,
)
    requires
        base_fits(base),
        first_export_at(img, name, i, rva),
        is_utf8(name),
        not_forwarded(img, rva),
    ensures
        resolve_in(ents, order, base, img, name, depth) == Some((base + rva) as u64),
{
    lemma_find_export_first(img, name, 0, i, rva);
}

proof fn lemma_last_index_at(s: Seq<u8>, c: u8, p: int, n: int)
    requires
        0 <= p < n <= s.len(),
        s[p] == c,
        forall|q: int| p < q < n ==> s[q] != c,
    ensures
        last_index(s, c, n) == Some(p),
    decreases n,
{
    if n - 1 != p {
        lemma_last_index_at(s, c, p, n - 1);
    }
}

/// `find_in` returns a module listed in `order`.
proof fn lemma_find_in_member(ents: Seq<LdrDataTableEntry>, order: Seq<usize>, name: Seq<u8>)
    ensures
        find_in(ents, order, name) matches Some(k) ==> order.contains(k),
    decreases order.len(),
{
    if order.len() > 0 {
        lemma_find_in_member(ents, order.drop_first(), name);
        if let Some(k) = find_in(ents, order.drop_first(), name) {
            if !name_matches(ents[order[0] as int].base_dll_name.buffer@, name) {
                let j = choose|j: int| 0 <= j < order.len() - 1 && order.drop_first()[j] == k;
                assert(order[j + 1] == k);
            }
        }
        assert(order[0] == order[0]);
    }
}

/// An export forwarded to "Other.M", where the first loaded module whose name
/// matches `Other` exports `M` without forwarding, resolves to that module's base
/// address plus the RVA of `M`. Names and the forwarder string are UTF-8, and `M`
/// holds no dot, since the string is split at its last one.
pub proof fn lemma_forwarded_export_resolves(
    ldr: PebLdrData,
    base: u64,
    img: Seq<u8>,
    name: Seq<u8>,
    i: int,
    rva: u32,
    other: Seq<u8>,
    symbol: Seq<u8>,
    k: usize,
    j: int,
    rva2: u32,
    depth: nat,
)
    requires
        ldr.wf(),
        base_fits(base),
        first_export_at(img, name, i, rva),
        is_utf8(name),
        forwarded(img, rva),
        c_string_at(img, rva as int) == Some(other + seq![DOT] + symbol),
        is_utf8(other + seq![DOT] + symbol),
        is_utf8(symbol),
        !symbol.contains(DOT),
        find_in(ldr.entries@, ldr.module_order(), other) == Some(k),
        first_export_at(ldr.entries@[k as int].image@, symbol, j, rva2),
        not_forwarded(ldr.entries@[k as int].image@, rva2),
        depth >= 1,
    ensures
        resolve_in(ldr.entries@, ldr.module_order(), base, img, name, depth) == Some(
            (ldr.entries@[k as int].dll_base + rva2) as u64,
        ),
{
    let ents = ldr.entries@;
    let order = ldr.module_order();
    let begin = ldr.in_load_order_module_list.flink;
    lemma_find_in_member(ents, order, other);
    lemma_walk_in_table(ents, Some(begin), begin, ents.len());
    let q = choose|q: int| 0 <= q < order.len() && order[q] == k;
    assert(k < ents.len());
    assert(base_fits(ents[k as int].dll_base));
    lemma_find_export_first(img, name, 0, i, rva);
    let s = other + seq![DOT] + symbol;
    let p = other.len() as int;
    assert forall|q: int| p < q < s.len() implies s[q] != DOT by {
        assert(s[q] == symbol[q - p - 1]);
    }
    lemma_last_index_at(s, DOT, p, s.len() as int);
    assert(s.subrange(0, p) =~= other);
    assert(s.subrange(p + 1, s.len() as int) =~= symbol);
    lemma_code_export_resolves(
        ents,
        order,
        ents[k as int].dll_base,
        ents[k as int].image@,
        symbol,
        j,
        rva2,
        (depth - 1) as nat,
    );
}

/// Two names that are equal but for ASCII case find the same module.
pub proof fn lemma_find_ignores_case(
    ents: Seq<LdrDataTableEntry>,
    order: Seq<usize>,
    a: Seq<u8>,
    b: Seq<u8>,
)
    requires
        a.len() == b.len(),
        forall|i: int| 0 <= i < a.len() ==> lower(#[trigger] a[i]) == lower(b[i]),
    ensures
        find_in(ents, order, a) == find_in(ents, order, b),
    decreases order.len(),
{
    if order.len() > 0 {
        let dll = ents[order[0] as int].base_dll_name.buffer@;
        assert(name_matches(dll, a) == name_matches(dll, b)) by {
            if name_matches(dll, a) {
                assert forall|i: int| 0 <= i < dll.len() && i < b.len() implies lower(
                    #[trigger] dll[i] as u8,
                ) == lower(b[i]) by {
                    assert(lower(dll[i] as u8) == lower(a[i]));
                }
            }
            if name_matches(dll, b) {
                assert forall|i: int| 0 <= i < dll.len() && i < a.len() implies lower(
                    #[trigger] dll[i] as u8,
                ) == lower(a[i]) by {
                    assert(lower(dll[i] as u8) == lower(b[i]));
                }
            }
        }
        lemma_find_ignores_case(ents, order.drop_first(), a, b);
    }
}

/// A walk never takes more steps than its bound, whatever the links hold and
/// from whichever entry it starts.
pub proof fn lemma_walk_bounded(
    ents: Seq<LdrDataTableEntry>,
    cur: Option<usize>,
    end: usize,
    fuel: nat,
)
    ensures
        walk(ents, cur, end, fuel).len() <= fuel,
    decreases fuel,
{
    if fuel > 0 {
        if let Some(c) = cur {
            if c < ents.len() && ents[c as int].dll_base != 0 {
                let nx = ents[c as int].in_load_order_links.flink;
                lemma_walk_bounded(ents, if nx != end { Some(nx) } else { None }, end, (fuel - 1) as nat);
            }
        }
    }
}

/// `order` lists distinct live entries of the table, each linked forward to the
/// next, the last linked back to the first or to something that is no live
/// entry (the list head).
pub open spec fn is_ring(ents: Seq<LdrDataTableEntry>, order: Seq<usize>) -> bool {
    &&& order.len() > 0
    &&& order.no_duplicates()
    &&& forall|k: int|
        0 <= k < order.len() ==> #[trigger] order[k] < ents.len() && ents[order[k] as int].dll_base
            != 0
    &&& forall|k: int|
        0 <= k < order.len() - 1 ==> ents[#[trigger] order[k] as int].in_load_order_links.flink
            == order[k + 1]
    &&& ({
        let last = ents[order[order.len() - 1] as int].in_load_order_links.flink;
        last == order[0] || last >= ents.len() || ents[last as int].dll_base == 0
    })
}

#[verifier::rlimit(40)]
proof fn lemma_ring_suffix(ents: Seq<LdrDataTableEntry>, order: Seq<usize>, k: int, fuel: nat)
    requires
        is_ring(ents, order),
        0 <= k < order.len(),
        fuel >= order.len() - k,
    ensures
        walk(ents, Some(order[k]), order[0], fuel) == order.subrange(k, order.len() as int),
    decreases order.len() - k,
{
    let c = order[k];
    let nx = ents[c as int].in_load_order_links.flink;
    if k < order.len() - 1 {
        assert(nx != order[0]) by {
            assert(order[k + 1] != order[0]);
        }
        lemma_ring_suffix(ents, order, k + 1, (fuel - 1) as nat);
        assert(seq![c] + order.subrange(k + 1, order.len() as int) =~= order.subrange(
            k,
            order.len() as int,
        ));
    } else {
        let next = if nx != order[0] {
            Some(nx)
        } else {
            None
        };
        assert(walk(ents, next, order[0], (fuel - 1) as nat) =~= Seq::<usize>::empty()) by {
            reveal_with_fuel(walk, 2);
        }
        assert(seq![c] =~= order.subrange(k, order.len() as int));
    }
}

/// A ring lists no more entries than the table holds.
proof fn lemma_ring_fits(ents: Seq<LdrDataTableEntry>, order: Seq<usize>)
    requires
        is_ring(ents, order),
    ensures
        order.len() <= ents.len(),
{
    let s = order.map_values(|x: usize| x as int);
    assert(s.no_duplicates()) by {
        assert forall|i: int, j: int| 0 <= i < s.len() && 0 <= j < s.len() && i != j implies s[i]
            != s[j] by {
            assert(order[i] != order[j]);
        }
    }
    s.unique_seq_to_set();
    lemma_int_range(0, ents.len() as int);
    assert forall|x: int| s.to_set().contains(x) implies set_int_range(0, ents.len() as int).contains(
        x,
    ) by {
        let i = choose|i: int| 0 <= i < s.len() && s[i] == x;
        assert(order[i] < ents.len());
    }
    lemma_len_subset(s.to_set(), set_int_range(0, ents.len() as int));
}

/// On a well-formed ring, a walk from its first entry, bounded by the table's
/// size, visits the ring in link order, each module exactly once.
pub proof fn lemma_ring_walk_visits_each_once(ents: Seq<LdrDataTableEntry>, order: Seq<usize>)
    requires
        is_ring(ents, order),
    ensures
        walk(ents, Some(order[0]), order[0], ents.len()) == order,
        walk(ents, Some(order[0]), order[0], ents.len()).no_duplicates(),
{
    lemma_ring_fits(ents, order);
    lemma_ring_suffix(ents, order, 0, ents.len());
    assert(order.subrange(0, order.len() as int) =~= order);
}

} // verus!
