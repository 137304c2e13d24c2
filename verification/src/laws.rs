//! Laws of the metadata table, stated over the same multiset model the
//! store's contracts use. Each law is proved from the model alone, so it
//! holds of the table after the corresponding store operation succeeds.

use vstd::prelude::*;
use vstd::multiset::Multiset;
use crate::record::{RowView, has_filename, keeps_filename};
use crate::store::name_matches;
use crate::text::contains_seq;

verus! {

broadcast use
    vstd::multiset::group_multiset_axioms,
    vstd::multiset::group_multiset_properties,
;

/// Law: recording one upload adds exactly one row to the table — the row
/// carrying the uploaded size — and leaves every other row's multiplicity
/// unchanged.
pub proof fn lemma_upload_adds_one_row(
    before: Multiset<RowView>,
    after: Multiset<RowView>,
    row: RowView,
)
    requires
        after == before.insert(row),
    ensures
        after.len() == before.len() + 1,
        after.count(row) == before.count(row) + 1,
        forall|other: RowView| other != row ==> after.count(other) == before.count(other),
{
    assert forall|other: RowView| other != row implies after.count(other) == before.count(
        other,
    ) by {
        assert(before.insert(row).count(other) == before.count(other));
    }
}

/// Law: uploads under one filename accumulate. Two inserted rows that both
/// carry `name` leave the table with two more rows of that filename than it
/// had before, however their ids and timestamps differ: duplicate-name rows
/// coexist, they do not replace one another.
pub proof fn lemma_duplicate_names_coexist(
    m0: Multiset<RowView>,
    m1: Multiset<RowView>,
    m2: Multiset<RowView>,
    r1: RowView,
    r2: RowView,
    name: Seq<char>,
)
    requires
        m1 == m0.insert(r1),
        m2 == m1.insert(r2),
        r1.1 == name,
        r2.1 == name,
    ensures
        m2.filter(has_filename(name)).len() == m0.filter(has_filename(name)).len() + 2,
        m2.count(r1) >= 1,
        m2.count(r2) >= 1,
{
    let p = has_filename(name);
    crate::store::lemma_filter_insert(m0, r1, p);
    crate::store::lemma_filter_insert(m1, r2, p);
}

/// Law: deleting a filename that no row carries leaves the table exactly as
/// it was.
pub proof fn lemma_delete_missing_name_is_noop(m: Multiset<RowView>, name: Seq<char>)
    requires
        forall|row: RowView| #[trigger] m.contains(row) ==> row.1 != name,
    ensures
        m.filter(keeps_filename(name)) == m,
{
    assert(m.filter(keeps_filename(name)) =~= m) by {
        assert forall|x: RowView| m.filter(keeps_filename(name)).count(x) == m.count(x) by {
            if x.1 == name {
                if m.count(x) > 0 {
                    assert(m.contains(x));
                }
            }
        }
    }
}

/// Law: one delete call removes every row carrying the filename — zero,
/// one, or many — and keeps every other row with its multiplicity; no row
/// with the deleted filename survives.
pub proof fn lemma_delete_removes_all(
    before: Multiset<RowView>,
    after: Multiset<RowView>,
    name: Seq<char>,
)
    requires
        after == before.filter(keeps_filename(name)),
    ensures
        forall|row: RowView| row.1 == name ==> after.count(row) == 0,
        forall|row: RowView| row.1 != name ==> after.count(row) == before.count(row),
        forall|row: RowView| #[trigger] after.contains(row) ==> row.1 != name,
{
    assert forall|row: RowView| row.1 == name implies after.count(row) == 0 by {
        assert(before.filter(keeps_filename(name)).count(row) == 0);
    }
    assert forall|row: RowView| row.1 != name implies after.count(row) == before.count(row) by {
        assert(before.filter(keeps_filename(name)).count(row) == before.count(row));
    }
}

/// Law: over a table in which no filename contains the search term, the name
/// search matches nothing — its result is the empty multiset.
pub proof fn lemma_search_without_match_is_empty(m: Multiset<RowView>, term: Seq<char>)
    requires
        forall|row: RowView| #[trigger] m.contains(row) ==> !contains_seq(row.1, term),
    ensures
        m.filter(name_matches(term)) == Multiset::<RowView>::empty(),
{
    assert(m.filter(name_matches(term)) =~= Multiset::<RowView>::empty()) by {
        assert forall|x: RowView| m.filter(name_matches(term)).count(x) == 0 by {
            if contains_seq(x.1, term) {
                if m.count(x) > 0 {
                    assert(m.contains(x));
                }
            }
        }
    }
}

} // verus!
