//! What a plan's digest depends on: no change of a deciding field leaves the
//! hashed text as it was.
use vstd::prelude::*;
use vstd::string::*;
use vstd::utf8::{encode_utf8, encode_utf8_decode_utf8};
use crate::platform_evidence_fusion::dat_hash_representation::sha256_digest;
use crate::platform_evidence_fusion::duplicate_taxonomy::DuplicateClass;
use crate::platform_evidence_fusion::library_plan_export::{LibraryPlanExportItem, OperationIntent};
use crate::platform_evidence_fusion::library_planning::PlanStatus;
use crate::platform_evidence_fusion::plan_transaction::{
    digest_line, plan_hash, plan_text, some_text,
};
use crate::text::{
    bracketed, debug_opt_text, debug_quoted_text, hex_char, hex_text, hex_text_len, opt_view,
    quoted_texts, views,
};

verus! {

/// What stands before each field of a digest line.
pub open spec fn field_labels() -> Seq<Seq<char>> {
    seq![
        "status="@,
        "|source="@,
        "|physical_hash="@,
        "|normalized_hash="@,
        "|destination="@,
        "|intent="@,
        "|blockers="@,
        "|set_label="@,
        "|set_destination="@,
        "|support_role="@,
        "|support_association="@,
        "|duplicate="@,
        "|revision="@,
    ]
}

/// The fields of a digest line.
pub open spec fn field_texts(item: LibraryPlanExportItem) -> Seq<Seq<char>> {
    seq![
        item.status.name_text(),
        item.precondition.source_path@,
        debug_opt_text(opt_view(item.precondition.physical_hash)),
        debug_opt_text(opt_view(item.precondition.normalized_hash)),
        debug_opt_text(opt_view(item.proposed_destination)),
        item.operation_intent.name_text(),
        bracketed(quoted_texts(views(item.blockers@))),
        debug_opt_text(opt_view(item.set_label)),
        debug_opt_text(opt_view(item.set_destination)),
        debug_opt_text(opt_view(item.support_role)),
        debug_opt_text(opt_view(item.support_association)),
        class_text(item.duplicate_classification),
        some_text(
            match item.revision_relationship {
                Some(relationship) => Some(relationship.debug_text()),
                None => None,
            },
        ),
    ]
}

/// The field of a duplicate class.
pub open spec fn class_text(class: Option<DuplicateClass>) -> Seq<char> {
    some_text(
        match class {
            Some(class) => Some(class.name_text()),
            None => None,
        },
    )
}

/// Each label followed by its field.
pub open spec fn labelled(labels: Seq<Seq<char>>, fields: Seq<Seq<char>>) -> Seq<char>
    decreases fields.len(),
{
    if fields.len() == 0 {
        seq![]
    } else {
        labelled(labels, fields.drop_last()) + labels[fields.len() - 1] + fields.last()
    }
}

/// The two lists differ in the field with index `k` and in no other.
pub open spec fn differ_only_at(a: Seq<Seq<char>>, b: Seq<Seq<char>>, k: int) -> bool {
    &&& a.len() == b.len()
    &&& 0 <= k < a.len()
    &&& a[k] != b[k]
    &&& forall|j: int| 0 <= j < a.len() && j != k ==> #[trigger] a[j] == b[j]
}

proof fn labelled_step(labels: Seq<Seq<char>>, fields: Seq<Seq<char>>, n: int)
    requires
        0 <= n < fields.len(),
    ensures
        labelled(labels, fields.take(n + 1)) == labelled(labels, fields.take(n)) + labels[n]
            + fields[n],
{
    assert(fields.take(n + 1).drop_last() =~= fields.take(n));
}

proof fn line_is_labelled(item: LibraryPlanExportItem)
    ensures
        digest_line(item) == labelled(field_labels(), field_texts(item)),
{
    let l = field_labels();
    let f = field_texts(item);
    assert(f.take(0) =~= seq![]);
    labelled_step(l, f, 0);
    assert(labelled(l, f.take(1)) =~= "status="@ + f[0]);
    labelled_step(l, f, 1);
    labelled_step(l, f, 2);
    labelled_step(l, f, 3);
    labelled_step(l, f, 4);
    labelled_step(l, f, 5);
    labelled_step(l, f, 6);
    labelled_step(l, f, 7);
    labelled_step(l, f, 8);
    labelled_step(l, f, 9);
    labelled_step(l, f, 10);
    labelled_step(l, f, 11);
    labelled_step(l, f, 12);
    assert(f.take(13) =~= f);
}

/// What follows two different texts of one text does not make them one.
proof fn suffix_cancels(a: Seq<char>, b: Seq<char>, suffix: Seq<char>)
    requires
        a + suffix == b + suffix,
    ensures
        a == b,
{
    assert((a + suffix).len() == (b + suffix).len());
    assert(a =~= (a + suffix).take(a.len() as int));
    assert(b =~= (b + suffix).take(b.len() as int));
}

proof fn prefix_cancels(a: Seq<char>, b: Seq<char>, prefix: Seq<char>)
    requires
        prefix + a == prefix + b,
    ensures
        a == b,
{
    assert(a =~= (prefix + a).skip(prefix.len() as int));
    assert(b =~= (prefix + b).skip(prefix.len() as int));
}

proof fn one_field_shows(
    labels: Seq<Seq<char>>,
    a: Seq<Seq<char>>,
    b: Seq<Seq<char>>,
    k: int,
)
    requires
        differ_only_at(a, b, k),
    ensures
        labelled(labels, a) != labelled(labels, b),
    decreases a.len(),
{
    let n = a.len() - 1;
    if labelled(labels, a) == labelled(labels, b) {
        let head_a = labelled(labels, a.drop_last()) + labels[n];
        let head_b = labelled(labels, b.drop_last()) + labels[n];
        if k == n {
            assert(a.drop_last() =~= b.drop_last());
            prefix_cancels(a.last(), b.last(), head_a);
        } else {
            assert(a[n] == b[n]);
            suffix_cancels(head_a, head_b, a.last());
            suffix_cancels(
                labelled(labels, a.drop_last()),
                labelled(labels, b.drop_last()),
                labels[n],
            );
            assert forall|j: int| 0 <= j < n && j != k implies #[trigger] a.drop_last()[j]
                == b.drop_last()[j] by {
                assert(a[j] == b[j]);
            }
            one_field_shows(labels, a.drop_last(), b.drop_last(), k);
        }
    }
}

proof fn one_line_shows(items: Seq<LibraryPlanExportItem>, i: int, other: LibraryPlanExportItem)
    requires
        0 <= i < items.len(),
        digest_line(items[i]) != digest_line(other),
    ensures
        plan_text(items) != plan_text(items.update(i, other)),
    decreases items.len(),
{
    let changed = items.update(i, other);
    let n = items.len() - 1;
    if plan_text(items) == plan_text(changed) {
        let before_a = plan_text(items.drop_last());
        let before_b = plan_text(changed.drop_last());
        suffix_cancels(
            before_a + digest_line(items.last()),
            before_b + digest_line(changed.last()),
            "\n"@,
        );
        if i == n {
            assert(items.drop_last() =~= changed.drop_last());
            prefix_cancels(digest_line(items.last()), digest_line(changed.last()), before_a);
        } else {
            suffix_cancels(before_a, before_b, digest_line(items.last()));
            assert(changed.drop_last() =~= items.drop_last().update(i, other));
            one_line_shows(items.drop_last(), i, other);
        }
    }
}

proof fn hex_digit_shows(a: nat, b: nat)
    requires
        a < 16,
        b < 16,
        hex_char(a) == hex_char(b),
    ensures
        a == b,
{
}

proof fn hex_shows(a: Seq<u8>, b: Seq<u8>)
    requires
        hex_text(a) == hex_text(b),
    ensures
        a == b,
    decreases a.len(),
{
    hex_text_len(a);
    hex_text_len(b);
    if a.len() == 0 {
        assert(a =~= b);
    } else {
        let ra = hex_text(a.drop_last());
        let rb = hex_text(b.drop_last());
        let (ha, la) = (hex_char(a.last() as nat / 16), hex_char(a.last() as nat % 16));
        let (hb, lb) = (hex_char(b.last() as nat / 16), hex_char(b.last() as nat % 16));
        let n = hex_text(a).len() as int;
        assert(ra.push(ha).push(la)[n - 1] == la && rb.push(hb).push(lb)[n - 1] == lb);
        assert(ra.push(ha).push(la)[n - 2] == ha && rb.push(hb).push(lb)[n - 2] == hb);
        hex_digit_shows(a.last() as nat / 16, b.last() as nat / 16);
        hex_digit_shows(a.last() as nat % 16, b.last() as nat % 16);
        assert(ra =~= ra.push(ha).push(la).take(n - 2));
        assert(rb =~= rb.push(hb).push(lb).take(n - 2));
        hex_shows(a.drop_last(), b.drop_last());
        assert(a =~= a.drop_last().push(a.last()));
        assert(b =~= b.drop_last().push(b.last()));
    }
}

/// Changing one field of one item changes what is hashed; so the plan has
/// another digest, or SHA-256 gives two different texts one digest.
pub proof fn a_changed_field_changes_what_is_hashed(
    items: Seq<LibraryPlanExportItem>,
    i: int,
    other: LibraryPlanExportItem,
    k: int,
)
    requires
        0 <= i < items.len(),
        differ_only_at(field_texts(items[i]), field_texts(other), k),
    ensures
        ({
            let hashed = encode_utf8(plan_text(items));
            let changed = encode_utf8(plan_text(items.update(i, other)));
            &&& hashed != changed
            &&& hex_text(plan_hash(items)) == hex_text(plan_hash(items.update(i, other)))
                ==> sha256_digest(hashed) == sha256_digest(changed)
        }),
{
    let new = items.update(i, other);
    line_is_labelled(items[i]);
    line_is_labelled(other);
    one_field_shows(field_labels(), field_texts(items[i]), field_texts(other), k);
    one_line_shows(items, i, other);
    encode_utf8_decode_utf8(plan_text(items));
    encode_utf8_decode_utf8(plan_text(new));
    if hex_text(plan_hash(items)) == hex_text(plan_hash(new)) {
        hex_shows(plan_hash(items), plan_hash(new));
    }
}

proof fn status_shows(a: PlanStatus, b: PlanStatus)
    ensures
        a.name_text() == b.name_text() ==> a == b,
{
    reveal_strlit("Ready");
    reveal_strlit("NeedsReview");
    reveal_strlit("Ambiguous");
    reveal_strlit("Conflict");
    reveal_strlit("Unknown");
    reveal_strlit("Unsupported");
    if a.name_text() == b.name_text() {
        assert(a.name_text().len() == b.name_text().len());
        assert(a.name_text()[0] == b.name_text()[0]);
    }
}

proof fn intent_shows(a: OperationIntent, b: OperationIntent)
    ensures
        a.name_text() == b.name_text() ==> a == b,
{
    reveal_strlit("MoveToLibraryFolder");
    reveal_strlit("RenameInPlace");
    reveal_strlit("OrganiseSymlinkOnly");
    reveal_strlit("None");
    if a.name_text() == b.name_text() {
        assert(a.name_text().len() == b.name_text().len());
        assert(a.name_text()[0] == b.name_text()[0]);
    }
}

proof fn class_shows(a: DuplicateClass, b: DuplicateClass)
    ensures
        a.name_text() == b.name_text() ==> a == b,
{
    reveal_strlit("ExactPhysicalDuplicate");
    reveal_strlit("ExactNormalizedDuplicate");
    reveal_strlit("SameDatRelease");
    reveal_strlit("SameGameDifferentDump");
    reveal_strlit("SameGameDifferentRevision");
    reveal_strlit("PossibleDuplicate");
    reveal_strlit("NotDuplicate");
    if a.name_text() == b.name_text() {
        assert(a.name_text().len() == b.name_text().len());
    }
}

proof fn some_shows(a: Option<Seq<char>>, b: Option<Seq<char>>)
    ensures
        some_text(a) == some_text(b) ==> a == b,
{
    reveal_strlit("None");
    reveal_strlit("Some(");
    reveal_strlit(")");
    assert("None"@[0] == 'N');
    match (a, b) {
        (Some(s), Some(t)) => {
            if some_text(a) == some_text(b) {
                suffix_cancels("Some("@ + s, "Some("@ + t, ")"@);
                prefix_cancels(s, t, "Some("@);
            }
        },
        (Some(s), None) => {
            assert(("Some("@ + s + ")"@)[0] == 'S');
        },
        (None, Some(t)) => {
            assert(("Some("@ + t + ")"@)[0] == 'S');
        },
        (None, None) => {},
    }
}

proof fn quoted_presence_shows(a: Option<String>, b: Option<String>)
    ensures
        debug_opt_text(opt_view(a)) == debug_opt_text(opt_view(b)) ==> (a is Some) == (b is Some),
{
    let wa = match a {
        Some(t) => Some(debug_quoted_text(t@)),
        None => None,
    };
    let wb = match b {
        Some(t) => Some(debug_quoted_text(t@)),
        None => None,
    };
    some_shows(wa, wb);
    assert(debug_opt_text(opt_view(a)) == some_text(wa));
    assert(debug_opt_text(opt_view(b)) == some_text(wb));
}

proof fn duplicate_shows(a: Option<DuplicateClass>, b: Option<DuplicateClass>)
    ensures
        class_text(a) == class_text(b) ==> a == b,
{
    let wa = match a {
        Some(class) => Some(class.name_text()),
        None => None,
    };
    let wb = match b {
        Some(class) => Some(class.name_text()),
        None => None,
    };
    some_shows(wa, wb);
    if a is Some && b is Some {
        class_shows(a->0, b->0);
    }
}

/// The fields of a digest line tell apart what they stand for: two statuses,
/// source paths, intents or duplicate classes; and whether there is a hash, a
/// destination, a set, a support role or a revision at all.
pub proof fn fields_tell_values_apart(a: LibraryPlanExportItem, b: LibraryPlanExportItem)
    ensures
        field_texts(a)[0] == field_texts(b)[0] ==> a.status == b.status,
        field_texts(a)[1] == field_texts(b)[1] ==> a.precondition.source_path@
            == b.precondition.source_path@,
        field_texts(a)[2] == field_texts(b)[2] ==> (a.precondition.physical_hash is Some) == (
        b.precondition.physical_hash is Some),
        field_texts(a)[3] == field_texts(b)[3] ==> (a.precondition.normalized_hash is Some) == (
        b.precondition.normalized_hash is Some),
        field_texts(a)[4] == field_texts(b)[4] ==> (a.proposed_destination is Some) == (
        b.proposed_destination is Some),
        field_texts(a)[5] == field_texts(b)[5] ==> a.operation_intent == b.operation_intent,
        field_texts(a)[7] == field_texts(b)[7] ==> (a.set_label is Some) == (b.set_label is Some),
        field_texts(a)[8] == field_texts(b)[8] ==> (a.set_destination is Some) == (
        b.set_destination is Some),
        field_texts(a)[9] == field_texts(b)[9] ==> (a.support_role is Some) == (
        b.support_role is Some),
        field_texts(a)[10] == field_texts(b)[10] ==> (a.support_association is Some) == (
        b.support_association is Some),
        field_texts(a)[11] == field_texts(b)[11] ==> a.duplicate_classification
            == b.duplicate_classification,
        field_texts(a)[12] == field_texts(b)[12] ==> (a.revision_relationship is Some) == (
        b.revision_relationship is Some),
{
    status_shows(a.status, b.status);
    intent_shows(a.operation_intent, b.operation_intent);
    quoted_presence_shows(a.precondition.physical_hash, b.precondition.physical_hash);
    quoted_presence_shows(a.precondition.normalized_hash, b.precondition.normalized_hash);
    quoted_presence_shows(a.proposed_destination, b.proposed_destination);
    quoted_presence_shows(a.set_label, b.set_label);
    quoted_presence_shows(a.set_destination, b.set_destination);
    quoted_presence_shows(a.support_role, b.support_role);
    quoted_presence_shows(a.support_association, b.support_association);
    duplicate_shows(a.duplicate_classification, b.duplicate_classification);
    let ra = match a.revision_relationship {
        Some(relationship) => Some(relationship.debug_text()),
        None => None,
    };
    let rb = match b.revision_relationship {
        Some(relationship) => Some(relationship.debug_text()),
        None => None,
    };
    some_shows(ra, rb);
}

} // verus!
