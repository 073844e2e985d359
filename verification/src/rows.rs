//! Result rows and their comparison, which does not depend on the order in
//! which the rows came back.
use crate::text::{chars_le, chars_of, lemma_row_le_connected, lemma_row_le_transitive,
    lemma_row_order_total, literal_texts, row_le, row_order, texts};
use vstd::prelude::*;
use vstd::relations::sorted_by;
use vstd::seq_lib::{group_to_multiset_ensures, lemma_sorted_unique};

verus! {

/// Two lists hold the same rows, each as often in one as in the other, in
/// whatever order.
pub open spec fn same_rows(expected: Seq<Seq<char>>, actual: Seq<Seq<char>>) -> bool {
    expected.to_multiset() == actual.to_multiset()
}

/// Each row comes no later than the rows behind it.
pub open spec fn rows_sorted(rows: Seq<Seq<char>>) -> bool {
    forall|i: int, j: int| 0 <= i < j < rows.len() ==> row_le(#[trigger] rows[i], #[trigger] rows[j])
}

/// The rows in canonical order.
pub open spec fn sorted_rows(rows: Seq<Seq<char>>) -> Seq<Seq<char>> {
    rows.sort_by(row_order())
}

/// The rows in canonical order are sorted and are the rows that were given.
pub proof fn lemma_sorted_rows(rows: Seq<Seq<char>>)
    ensures
        rows_sorted(sorted_rows(rows)),
        same_rows(sorted_rows(rows), rows),
        sorted_rows(rows).len() == rows.len(),
{
    broadcast use group_to_multiset_ensures;

    lemma_row_order_total();
    rows.lemma_sort_by_ensures(row_order());
    let sorted = sorted_rows(rows);
    assert(sorted.to_multiset().len() == rows.to_multiset().len());
    assert forall|i: int, j: int| 0 <= i < j < sorted.len() implies row_le(
        #[trigger] sorted[i],
        #[trigger] sorted[j],
    ) by {
        assert(row_order()(sorted[i], sorted[j]));
    }
}

/// There is one way only to put given rows in canonical order.
pub proof fn lemma_sorted_rows_unique(sorted: Seq<Seq<char>>, rows: Seq<Seq<char>>)
    requires
        rows_sorted(sorted),
        same_rows(sorted, rows),
    ensures
        sorted == sorted_rows(rows),
{
    lemma_row_order_total();
    lemma_sorted_rows(rows);
    let other = sorted_rows(rows);
    assert(sorted_by(sorted, row_order()));
    assert(sorted_by(other, row_order()));
    lemma_sorted_unique(sorted, other, row_order());
}

/// Row comparison does not depend on order: two lists hold the same rows
/// exactly when they are equal once each is put in canonical order. So any
/// rearrangement of the expected rows is met by the same results.
pub proof fn lemma_same_rows_by_sorting(expected: Seq<Seq<char>>, actual: Seq<Seq<char>>)
    ensures
        same_rows(expected, actual) <==> sorted_rows(expected) == sorted_rows(actual),
{
    lemma_sorted_rows(expected);
    lemma_sorted_rows(actual);
    if same_rows(expected, actual) {
        lemma_sorted_rows_unique(sorted_rows(expected), actual);
    }
}

/// Rearranged expectations are met by the same results: what holds the same
/// rows as `expected` is matched by exactly the results that match `expected`.
pub proof fn lemma_same_rows_rearranged(
    expected: Seq<Seq<char>>,
    rearranged: Seq<Seq<char>>,
    actual: Seq<Seq<char>>,
)
    requires
        same_rows(expected, rearranged),
    ensures
        same_rows(expected, actual) == same_rows(rearranged, actual),
        same_rows(expected, expected),
{
}

/// Copies rows written down as literals into owned rows.
pub fn owned_rows(rows: &Vec<&'static str>) -> (owned: Vec<String>)
    ensures
        texts(owned@) == literal_texts(rows@),
{
    let mut owned: Vec<String> = Vec::new();
    let mut i: usize = 0;
    while i < rows.len()
        invariant
            i <= rows.len(),
            owned.len() == i,
            forall|k: int| 0 <= k < i ==> (#[trigger] owned@[k])@ == rows@[k]@,
        decreases rows.len() - i,
    {
        owned.push(rows[i].to_owned());
        i += 1;
    }
    assert(texts(owned@) =~= literal_texts(rows@));
    owned
}

/// Puts rows in canonical order.
pub fn sort_rows(rows: &Vec<String>) -> (sorted: Vec<String>)
    ensures
        texts(sorted@) == sorted_rows(texts(rows@)),
{
    let mut sorted: Vec<String> = Vec::new();
    let mut keys: Vec<Vec<char>> = Vec::new();
    let mut i: usize = 0;
    assert(texts(sorted@) =~= texts(rows@.take(0)));
    while i < rows.len()
        invariant
            i <= rows.len(),
            keys.len() == sorted.len(),
            forall|k: int| 0 <= k < keys.len() ==> (#[trigger] keys@[k])@ == sorted@[k]@,
            rows_sorted(texts(sorted@)),
            same_rows(texts(sorted@), texts(rows@.take(i as int))),
        decreases rows.len() - i,
    {
        let row: String = rows[i].clone();
        let key: Vec<char> = chars_of(row.as_str());
        let mut at: usize = 0;
        while at < keys.len() && chars_le(&keys[at], &key)
            invariant
                at <= keys.len(),
                forall|k: int| 0 <= k < at ==> row_le((#[trigger] keys@[k])@, key@),
            decreases keys.len() - at,
        {
            at += 1;
        }
        let ghost before = texts(sorted@);
        let ghost seen = texts(rows@.take(i as int));
        proof {
            let after = before.insert(at as int, key@);
            assert forall|p: int, q: int| 0 <= p < q < after.len() implies row_le(
                #[trigger] after[p],
                #[trigger] after[q],
            ) by {
                if q < at {
                    assert(after[p] == before[p] && after[q] == before[q]);
                } else if q == at {
                    assert(after[p] == before[p]);
                    assert(keys@[p]@ == sorted@[p]@);
                } else {
                    // the row at `at` before the insertion comes after the new row
                    assert(keys@[at as int]@ == sorted@[at as int]@);
                    lemma_row_le_connected(before[at as int], key@);
                    assert(after[q] == before[q - 1]);
                    if q - 1 > at {
                        assert(row_le(before[at as int], before[q - 1]));
                        lemma_row_le_transitive(key@, before[at as int], before[q - 1]);
                    }
                    if p < at {
                        assert(after[p] == before[p]);
                        assert(keys@[p]@ == sorted@[p]@);
                        lemma_row_le_transitive(before[p], key@, before[q - 1]);
                    } else if p > at {
                        assert(after[p] == before[p - 1]);
                    }
                }
            }
        }
        sorted.insert(at, row);
        keys.insert(at, key);
        i += 1;
        proof {
            broadcast use group_to_multiset_ensures;

            assert(texts(sorted@) =~= before.insert(at as int, key@));
            assert(texts(rows@.take(i as int)) =~= seen.push(key@));
        }
    }
    proof {
        assert(rows@.take(i as int) =~= rows@);
        lemma_sorted_rows_unique(texts(sorted@), texts(rows@));
    }
    sorted
}

/// Tells whether two lists hold the same rows at the same places.
pub fn rows_equal(a: &Vec<String>, b: &Vec<String>) -> (equal: bool)
    ensures
        equal == (texts(a@) == texts(b@)),
{
    if a.len() != b.len() {
        assert(texts(a@).len() != texts(b@).len());
        return false;
    }
    let mut i: usize = 0;
    while i < a.len()
        invariant
            i <= a.len(),
            a.len() == b.len(),
            forall|k: int| 0 <= k < i ==> (#[trigger] a@[k])@ == b@[k]@,
        decreases a.len() - i,
    {
        if a[i] != b[i] {
            assert(texts(a@)[i as int] != texts(b@)[i as int]);
            return false;
        }
        i += 1;
    }
    assert(texts(a@) =~= texts(b@));
    true
}

/// Tells whether the rows that came back are the expected rows, in whatever
/// order either list is.
pub fn rows_match(expected: &Vec<&'static str>, actual: &Vec<String>) -> (matched: bool)
    ensures
        matched == same_rows(literal_texts(expected@), texts(actual@)),
{
    let wanted: Vec<String> = sort_rows(&owned_rows(expected));
    let got: Vec<String> = sort_rows(actual);
    proof {
        lemma_same_rows_by_sorting(literal_texts(expected@), texts(actual@));
    }
    rows_equal(&wanted, &got)
}

} // verus!
