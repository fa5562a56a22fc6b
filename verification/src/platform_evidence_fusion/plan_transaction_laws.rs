//! Laws of plans that become batches of moves.
use vstd::prelude::*;
use vstd::string::*;
use crate::dat::rename_apply::{
    entry_models, EntryModel, FileIdentity, RenameTransaction, TransactionState,
};
use crate::order::{is_sorted, stable_sorted_props};
use crate::path::{components, components_le_total, components_le_transitive};
use crate::platform_evidence_fusion::library_plan_export::LibraryPlanExportItem;
use crate::platform_evidence_fusion::plan_transaction::{
    big_endian_number, clashes, cyclic_paths, digest_line, entries_of, entry_of, is_admitted,
    is_fresh, is_operation, is_source, names_one_of, operation_of, operations_of, path_text_order,
    plan_hash, plan_text, source_paths, TransactionStamp,
};
use crate::platform_evidence_fusion::set_destination::is_safe_name;
use crate::rearranged::{rearranged, rearranged_map, rearranged_stays_distinct};
use crate::text::{hex_char, hex_text, hex_text_len, opt_view, views};

verus! {

/// The rows of a preview are exactly the rows of the ready, unblocked items
/// with a destination and an intent; every other item is left out.
pub proof fn operations_are_the_ready_items(items: Seq<LibraryPlanExportItem>)
    ensures
        operations_of(items).len() <= items.len(),
        forall|k: int|
            0 <= k < operations_of(items).len() ==> exists|i: int|
                0 <= i < items.len() && is_operation(#[trigger] items[i]) && operation_of(items[i])
                    == #[trigger] operations_of(items)[k],
        forall|i: int|
            0 <= i < items.len() && is_operation(#[trigger] items[i]) ==> operations_of(
                items,
            ).contains(operation_of(items[i])),
    decreases items.len(),
{
    if items.len() > 0 {
        let rest = items.drop_last();
        let ops = operations_of(items);
        let before = operations_of(rest);
        operations_are_the_ready_items(rest);
        assert forall|k: int| 0 <= k < ops.len() implies exists|i: int|
            0 <= i < items.len() && is_operation(#[trigger] items[i]) && operation_of(items[i])
                == #[trigger] ops[k] by {
            if k < before.len() {
                assert(ops[k] == before[k]);
                let i = choose|i: int|
                    0 <= i < rest.len() && is_operation(#[trigger] rest[i]) && operation_of(rest[i])
                        == before[k];
                assert(items[i] == rest[i]);
            } else {
                assert(is_operation(items[items.len() - 1]));
            }
        }
        assert forall|i: int| 0 <= i < items.len() && is_operation(#[trigger] items[i]) implies
            ops.contains(operation_of(items[i])) by {
            if i < rest.len() {
                assert(rest[i] == items[i]);
                assert(before.contains(operation_of(rest[i])));
                let k = choose|k: int| 0 <= k < before.len() && before[k] == operation_of(rest[i]);
                assert(ops[k] == before[k]);
            } else {
                assert(ops[ops.len() - 1] == operation_of(items[i]));
            }
        }
    }
}

/// Every entry of a batch comes from an item that is ready, unblocked and
/// approved; it moves to another path, under a safe file name.
pub proof fn entries_are_approved(
    items: Seq<LibraryPlanExportItem>,
    approved: Set<Seq<char>>,
    captured: Seq<(String, FileIdentity)>,
)
    ensures
        forall|k: int|
            0 <= k < entries_of(items, approved, captured).len() ==> {
                let entry = #[trigger] entries_of(items, approved, captured)[k];
                &&& approved.contains(entry.source)
                &&& components(entry.source) != components(entry.destination)
                &&& is_safe_name(entry.proposed_basename)
                &&& exists|i: int|
                    0 <= i < items.len() && is_admitted(#[trigger] items[i], approved, captured)
                        && entry_of(items[i], captured) == entry
            },
    decreases items.len(),
{
    if items.len() > 0 {
        let rest = items.drop_last();
        let all = entries_of(items, approved, captured);
        let before = entries_of(rest, approved, captured);
        entries_are_approved(rest, approved, captured);
        assert forall|k: int| 0 <= k < all.len() implies {
            let entry = #[trigger] all[k];
            &&& approved.contains(entry.source)
            &&& components(entry.source) != components(entry.destination)
            &&& is_safe_name(entry.proposed_basename)
            &&& exists|i: int|
                0 <= i < items.len() && is_admitted(#[trigger] items[i], approved, captured)
                    && entry_of(items[i], captured) == entry
        } by {
            if k < before.len() {
                assert(all[k] == before[k]);
                let i = choose|i: int|
                    0 <= i < rest.len() && is_admitted(#[trigger] rest[i], approved, captured)
                        && entry_of(rest[i], captured) == before[k];
                assert(items[i] == rest[i]);
            } else {
                assert(is_admitted(items[items.len() - 1], approved, captured));
            }
        }
    }
}

/// An approval of a plan admits every operation of the plan whose source is
/// there and whose destination is another path with a safe file name; and it
/// admits nothing whose source path is not that of an operation.
pub proof fn approval_admits_its_operations(
    items: Seq<LibraryPlanExportItem>,
    captured: Seq<(String, FileIdentity)>,
    i: int,
)
    requires
        0 <= i < items.len(),
    ensures
        ({
            let approved = source_paths(operations_of(items)).to_set();
            let everything = Set::new(|path: Seq<char>| true);
            &&& is_operation(items[i]) && is_admitted(items[i], everything, captured)
                ==> is_admitted(items[i], approved, captured)
            &&& is_admitted(items[i], approved, captured) ==> exists|k: int|
                0 <= k < operations_of(items).len() && (
                #[trigger] operations_of(items)[k]).source == items[i].precondition.source_path@
        }),
{
    let ops = operations_of(items);
    let paths = source_paths(ops);
    let own = items[i].precondition.source_path@;
    operations_are_the_ready_items(items);
    if is_operation(items[i]) {
        assert(ops.contains(operation_of(items[i])));
        let k = choose|k: int| 0 <= k < ops.len() && ops[k] == operation_of(items[i]);
        assert(paths[k] == own);
        assert(paths.to_set().contains(own));
    }
    if is_admitted(items[i], paths.to_set(), captured) {
        assert(paths.contains(own));
        let k = choose|k: int| 0 <= k < paths.len() && paths[k] == own;
        assert(ops[k].source == own);
    }
}

/// The components of each path.
pub open spec fn path_components(paths: Seq<Seq<char>>) -> Seq<Seq<Seq<char>>> {
    paths.map_values(|path: Seq<char>| components(path))
}

proof fn clashes_props(entries: Seq<EntryModel>, all: Seq<EntryModel>)
    ensures
        forall|k: int|
            0 <= k < clashes(entries, all).len() ==> is_source(
                all,
                #[trigger] clashes(entries, all)[k],
            ) && exists|i: int|
                0 <= i < entries.len() && (#[trigger] entries[i]).destination == clashes(
                    entries,
                    all,
                )[k],
        forall|i: int|
            0 <= i < entries.len() && is_source(all, (#[trigger] entries[i]).destination)
                ==> names_one_of(clashes(entries, all), entries[i].destination),
    decreases entries.len(),
{
    if entries.len() > 0 {
        let rest = entries.drop_last();
        let before = clashes(rest, all);
        let now = clashes(entries, all);
        clashes_props(rest, all);
        assert forall|k: int| 0 <= k < now.len() implies is_source(all, #[trigger] now[k])
            && exists|i: int|
            0 <= i < entries.len() && (#[trigger] entries[i]).destination == now[k] by {
            if k < before.len() {
                assert(now[k] == before[k]);
                let i = choose|i: int|
                    0 <= i < rest.len() && (#[trigger] rest[i]).destination == before[k];
                assert(entries[i] == rest[i]);
            } else {
                assert(entries[entries.len() - 1].destination == now[k]);
            }
        }
        assert forall|i: int|
            0 <= i < entries.len() && is_source(all, (#[trigger] entries[i]).destination) implies
            names_one_of(now, entries[i].destination) by {
            let path = entries[i].destination;
            if i < rest.len() {
                assert(rest[i] == entries[i]);
                assert(names_one_of(before, path));
            }
            if names_one_of(before, path) {
                let k = choose|k: int|
                    0 <= k < before.len() && components(#[trigger] before[k]) == components(path);
                assert(now[k] == before[k]);
            } else {
                assert(now[now.len() - 1] == path);
            }
        }
    }
}

proof fn clashes_are_distinct(entries: Seq<EntryModel>, all: Seq<EntryModel>)
    ensures
        path_components(clashes(entries, all)).no_duplicates(),
    decreases entries.len(),
{
    if entries.len() > 0 {
        let before = clashes(entries.drop_last(), all);
        let path = entries.last().destination;
        clashes_are_distinct(entries.drop_last(), all);
        if clashes(entries, all) != before {
            let named = path_components(before);
            assert(path_components(before.push(path)) =~= named.push(components(path)));
            if named.contains(components(path)) {
                let k = choose|k: int| 0 <= k < named.len() && named[k] == components(path);
                assert(components(before[k]) == components(path));
                assert(names_one_of(before, path));
            }
            assert forall|p: int, q: int|
                0 <= p <= named.len() && 0 <= q <= named.len() && p != q implies named.push(
                components(path),
            )[p] != named.push(components(path))[q] by {
                if p == named.len() {
                    assert(named.contains(named[q]));
                } else if q == named.len() {
                    assert(named.contains(named[p]));
                }
            }
        }
    }
}

/// The order of paths, on texts, is a total preorder.
pub proof fn path_text_order_is_preorder()
    ensures
        crate::order::is_preorder(path_text_order()),
{
    let le = path_text_order();
    assert forall|a: Seq<char>, b: Seq<char>| #[trigger] le(a, b) || #[trigger] le(b, a) by {
        components_le_total(components(a), components(b));
    }
    assert forall|a: Seq<char>, b: Seq<char>, c: Seq<char>| #[trigger] le(a, b) && #[trigger] le(
        b,
        c,
    ) implies le(a, c) by {
        components_le_transitive(components(a), components(b), components(c));
    }
}

proof fn rearranged_names_the_same(a: Seq<Seq<char>>, b: Seq<Seq<char>>, path: Seq<char>)
    requires
        rearranged(a, b),
        names_one_of(a, path),
    ensures
        names_one_of(b, path),
{
    let k = choose|k: int| 0 <= k < a.len() && components(#[trigger] a[k]) == components(path);
    a.to_multiset_ensures();
    b.to_multiset_ensures();
    assert(a.contains(a[k]));
    assert(b.to_multiset().count(a[k]) > 0);
    assert(b.contains(a[k]));
    let m = choose|m: int| 0 <= m < b.len() && b[m] == a[k];
    assert(components(b[m]) == components(path));
}

proof fn rearranged_paths_stay_distinct(a: Seq<Seq<char>>, b: Seq<Seq<char>>)
    requires
        rearranged(a, b),
        path_components(a).no_duplicates(),
    ensures
        path_components(b).no_duplicates(),
{
    rearranged_map(a, b, |path: Seq<char>| components(path));
    rearranged_stays_distinct(path_components(a), path_components(b));
}

proof fn cyclic_paths_are_rearranged(entries: Seq<EntryModel>)
    ensures
        rearranged(clashes(entries, entries), cyclic_paths(entries)),
{
    path_text_order_is_preorder();
    stable_sorted_props(clashes(entries, entries), path_text_order());
}

proof fn all_clashes_are_named(entries: Seq<EntryModel>)
    ensures
        forall|i: int|
            0 <= i < entries.len() && is_source(entries, (#[trigger] entries[i]).destination)
                ==> names_one_of(cyclic_paths(entries), entries[i].destination),
        path_components(cyclic_paths(entries)).no_duplicates(),
{
    cyclic_paths_are_rearranged(entries);
    clashes_are_distinct(entries, entries);
    rearranged_paths_stay_distinct(clashes(entries, entries), cyclic_paths(entries));
    assert forall|i: int|
        0 <= i < entries.len() && is_source(entries, (#[trigger] entries[i]).destination) implies
        names_one_of(cyclic_paths(entries), entries[i].destination) by {
        clashes_props(entries, entries);
        rearranged_names_the_same(
            clashes(entries, entries),
            cyclic_paths(entries),
            entries[i].destination,
        );
    }
}

/// A batch is refused as a cycle exactly when some destination is the path of
/// some source. The paths named are such destinations, in path order; each such
/// destination is named, and none is named twice.
pub proof fn cycles_are_destinations_that_are_sources(entries: Seq<EntryModel>)
    ensures
        cyclic_paths(entries).len() == 0 <==> forall|i: int, j: int|
            0 <= i < entries.len() && 0 <= j < entries.len() ==> components(
                (#[trigger] entries[i]).destination,
            ) != components((#[trigger] entries[j]).source),
        is_sorted(cyclic_paths(entries), path_text_order()),
        forall|path: Seq<char>| #[trigger]
            cyclic_paths(entries).contains(path) ==> is_source(entries, path) && exists|i: int|
                0 <= i < entries.len() && (#[trigger] entries[i]).destination == path,
        forall|i: int|
            0 <= i < entries.len() && is_source(entries, (#[trigger] entries[i]).destination)
                ==> names_one_of(cyclic_paths(entries), entries[i].destination),
        path_components(cyclic_paths(entries)).no_duplicates(),
{
    let found = clashes(entries, entries);
    clashes_props(entries, entries);
    path_text_order_is_preorder();
    stable_sorted_props(found, path_text_order());
    let sorted = cyclic_paths(entries);
    assert(sorted.len() == found.len()) by {
        sorted.to_multiset_ensures();
        found.to_multiset_ensures();
    }
    if found.len() > 0 {
        assert(is_source(entries, found[0]));
        let j = choose|j: int|
            0 <= j < entries.len() && components((#[trigger] entries[j]).source) == components(
                found[0],
            );
        let i = choose|i: int|
            0 <= i < entries.len() && (#[trigger] entries[i]).destination == found[0];
        assert(components(entries[i].destination) == components(entries[j].source));
    } else {
        assert forall|i: int, j: int|
            0 <= i < entries.len() && 0 <= j < entries.len() implies components(
            (#[trigger] entries[i]).destination,
        ) != components((#[trigger] entries[j]).source) by {
            if components(entries[i].destination) == components(entries[j].source) {
                assert(is_source(entries, entries[i].destination));
                assert(names_one_of(found, entries[i].destination));
            }
        }
    }
    assert forall|path: Seq<char>| #[trigger] sorted.contains(path) implies is_source(
        entries,
        path,
    ) && exists|i: int| 0 <= i < entries.len() && (#[trigger] entries[i]).destination == path by {
        sorted.to_multiset_ensures();
        found.to_multiset_ensures();
        assert(found.to_multiset().contains(path));
        assert(found.contains(path));
        let k = choose|k: int| 0 <= k < found.len() && found[k] == path;
        assert(found[k] == path);
    }
    all_clashes_are_named(entries);
}

/// The two items agree on everything that decides what would happen.
pub open spec fn decide_alike(a: LibraryPlanExportItem, b: LibraryPlanExportItem) -> bool {
    &&& a.status == b.status
    &&& a.precondition.source_path@ == b.precondition.source_path@
    &&& opt_view(a.precondition.physical_hash) == opt_view(b.precondition.physical_hash)
    &&& opt_view(a.precondition.normalized_hash) == opt_view(b.precondition.normalized_hash)
    &&& opt_view(a.proposed_destination) == opt_view(b.proposed_destination)
    &&& a.operation_intent == b.operation_intent
    &&& views(a.blockers@) == views(b.blockers@)
    &&& opt_view(a.set_label) == opt_view(b.set_label)
    &&& opt_view(a.set_destination) == opt_view(b.set_destination)
    &&& opt_view(a.support_role) == opt_view(b.support_role)
    &&& opt_view(a.support_association) == opt_view(b.support_association)
    &&& a.duplicate_classification == b.duplicate_classification
    &&& a.revision_relationship == b.revision_relationship
}

/// Two plans that agree on everything that decides what would happen have the
/// same digest, whatever they display.
pub proof fn digest_reads_only_what_decides(
    a: Seq<LibraryPlanExportItem>,
    b: Seq<LibraryPlanExportItem>,
)
    requires
        a.len() == b.len(),
        forall|i: int| 0 <= i < a.len() ==> decide_alike(#[trigger] a[i], #[trigger] b[i]),
    ensures
        plan_hash(a) == plan_hash(b),
{
    texts_agree(a, b);
}

proof fn texts_agree(a: Seq<LibraryPlanExportItem>, b: Seq<LibraryPlanExportItem>)
    requires
        a.len() == b.len(),
        forall|i: int| 0 <= i < a.len() ==> decide_alike(#[trigger] a[i], #[trigger] b[i]),
    ensures
        plan_text(a) == plan_text(b),
    decreases a.len(),
{
    if a.len() > 0 {
        let n = a.len() - 1;
        assert forall|i: int| 0 <= i < n implies decide_alike(
            #[trigger] a.drop_last()[i],
            #[trigger] b.drop_last()[i],
        ) by {
            assert(decide_alike(a[i], b[i]));
        }
        texts_agree(a.drop_last(), b.drop_last());
        assert(decide_alike(a[n], b[n]));
        assert(digest_line(a.last()) == digest_line(b.last()));
    }
}

/// The value of a hexadecimal digit.
pub open spec fn hex_value(c: char) -> nat {
    if '0' <= c && c <= '9' {
        (c as nat - '0' as nat) as nat
    } else {
        (c as nat - 'a' as nat + 10) as nat
    }
}

/// The number a run of hexadecimal digits stands for.
pub open spec fn hex_number(s: Seq<char>) -> nat
    decreases s.len(),
{
    if s.len() == 0 {
        0
    } else {
        hex_number(s.drop_last()) * 16 + hex_value(s.last())
    }
}

proof fn hex_number_of_bytes(bytes: Seq<u8>)
    ensures
        hex_number(hex_text(bytes)) == big_endian_number(bytes),
    decreases bytes.len(),
{
    if bytes.len() > 0 {
        let b = bytes.last() as nat;
        let before = hex_text(bytes.drop_last());
        let high = before.push(hex_char(b / 16));
        let all = high.push(hex_char(b % 16));
        hex_number_of_bytes(bytes.drop_last());
        assert(all.drop_last() =~= high);
        assert(high.drop_last() =~= before);
        assert(hex_value(hex_char(b / 16)) == b / 16);
        assert(hex_value(hex_char(b % 16)) == b % 16);
        assert(hex_number(high) == hex_number(before) * 16 + b / 16);
        assert(hex_number(all) == hex_number(high) * 16 + b % 16);
    }
}

proof fn hex_text_prefix(bytes: Seq<u8>, n: int)
    requires
        0 <= n <= bytes.len(),
    ensures
        hex_text(bytes).take(2 * n) == hex_text(bytes.take(n)),
    decreases bytes.len(),
{
    hex_text_len(bytes);
    if n == bytes.len() {
        assert(bytes.take(n) =~= bytes);
        assert(hex_text(bytes).take(2 * n) =~= hex_text(bytes));
    } else {
        let init = bytes.drop_last();
        hex_text_prefix(init, n);
        hex_text_len(init);
        assert(init.take(n) =~= bytes.take(n));
        assert(hex_text(bytes).take(2 * n) =~= hex_text(init).take(2 * n));
    }
}

/// The generation of a plan is the number that the first sixteen digits of its
/// digest stand for, so it changes only with the digest.
pub proof fn generation_is_read_from_the_digest(items: Seq<LibraryPlanExportItem>)
    requires
        plan_hash(items).len() == 32,
    ensures
        big_endian_number(plan_hash(items).take(8)) == hex_number(
            hex_text(plan_hash(items)).take(16),
        ),
{
    hex_text_prefix(plan_hash(items), 8);
    hex_number_of_bytes(plan_hash(items).take(8));
}

/// Two builds of one plan differ by their stamps alone: their ids are different
/// exactly when the stamped ones are, and everything else about them is the same.
pub proof fn builds_differ_only_by_their_stamps(
    a: RenameTransaction,
    b: RenameTransaction,
    entries: Seq<EntryModel>,
    generation: nat,
    scan_root_label: Seq<char>,
    stamp_a: TransactionStamp,
    stamp_b: TransactionStamp,
)
    requires
        is_fresh(a, entries, generation, scan_root_label, stamp_a),
        is_fresh(b, entries, generation, scan_root_label, stamp_b),
    ensures
        a.transaction_id@ == b.transaction_id@ <==> stamp_a.transaction_id@
            == stamp_b.transaction_id@,
        a.plan_generation == b.plan_generation,
        a.source_scan_root@ == b.source_scan_root@,
        a.state == TransactionState::Planned && b.state == TransactionState::Planned,
        entry_models(a.entries@) == entry_models(b.entries@),
        a.created_directories@.len() == 0 && b.created_directories@.len() == 0,
{
}

} // verus!
