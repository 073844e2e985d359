//! Text as sequences of characters: substring search and the canonical order
//! of rows.
use vstd::prelude::*;

verus! {

/// The texts of owned strings, one for one.
pub open spec fn texts(strings: Seq<String>) -> Seq<Seq<char>> {
    strings.map_values(|s: String| s@)
}

/// The texts of string literals, one for one.
pub open spec fn literal_texts(strings: Seq<&'static str>) -> Seq<Seq<char>> {
    strings.map_values(|s: &'static str| s@)
}

/// `needle` stands in `haystack` at position `at`.
pub open spec fn occurs_at(haystack: Seq<char>, needle: Seq<char>, at: int) -> bool {
    &&& 0 <= at
    &&& at + needle.len() <= haystack.len()
    &&& haystack.subrange(at, at + needle.len()) == needle
}

/// `needle` stands somewhere in `haystack`, whatever surrounds it.
pub open spec fn contains_text(haystack: Seq<char>, needle: Seq<char>) -> bool {
    exists|at: int| occurs_at(haystack, needle, at)
}

/// The canonical order of rows: character by character, a proper prefix before
/// what it is a prefix of.
pub open spec fn row_le(a: Seq<char>, b: Seq<char>) -> bool
    decreases a.len(),
{
    if a.len() == 0 {
        true
    } else if b.len() == 0 {
        false
    } else if a[0] != b[0] {
        (a[0] as int) < (b[0] as int)
    } else {
        row_le(a.drop_first(), b.drop_first())
    }
}

/// The canonical order as a relation.
pub open spec fn row_order() -> spec_fn(Seq<char>, Seq<char>) -> bool {
    |a: Seq<char>, b: Seq<char>| row_le(a, b)
}

/// Every row is at most itself.
pub proof fn lemma_row_le_reflexive(a: Seq<char>)
    ensures
        row_le(a, a),
    decreases a.len(),
{
    if a.len() > 0 {
        lemma_row_le_reflexive(a.drop_first());
    }
}

/// Two rows that are each at most the other are the same row.
pub proof fn lemma_row_le_antisymmetric(a: Seq<char>, b: Seq<char>)
    requires
        row_le(a, b),
        row_le(b, a),
    ensures
        a == b,
    decreases a.len(),
{
    if a.len() == 0 || b.len() == 0 {
        assert(a =~= b);
    } else {
        lemma_row_le_antisymmetric(a.drop_first(), b.drop_first());
        assert(a =~= seq![a[0]] + a.drop_first());
        assert(b =~= seq![b[0]] + b.drop_first());
    }
}

/// The canonical order is transitive.
pub proof fn lemma_row_le_transitive(a: Seq<char>, b: Seq<char>, c: Seq<char>)
    requires
        row_le(a, b),
        row_le(b, c),
    ensures
        row_le(a, c),
    decreases a.len(),
{
    if a.len() > 0 && b.len() > 0 && c.len() > 0 {
        if a[0] == b[0] && b[0] == c[0] {
            lemma_row_le_transitive(a.drop_first(), b.drop_first(), c.drop_first());
        }
    }
}

/// Of any two rows one is at most the other.
pub proof fn lemma_row_le_connected(a: Seq<char>, b: Seq<char>)
    ensures
        row_le(a, b) || row_le(b, a),
    decreases a.len(),
{
    if a.len() > 0 && b.len() > 0 && a[0] == b[0] {
        lemma_row_le_connected(a.drop_first(), b.drop_first());
    }
}

/// The canonical order of rows is a total order.
pub proof fn lemma_row_order_total()
    ensures
        vstd::relations::total_ordering(row_order()),
{
    let r = row_order();
    assert forall|x: Seq<char>| #[trigger] r(x, x) by {
        lemma_row_le_reflexive(x);
    }
    assert forall|x: Seq<char>, y: Seq<char>| #[trigger] r(x, y) && #[trigger] r(y, x) implies x
        == y by {
        lemma_row_le_antisymmetric(x, y);
    }
    assert forall|x: Seq<char>, y: Seq<char>, z: Seq<char>| #[trigger]
        r(x, y) && #[trigger] r(y, z) implies r(x, z) by {
        lemma_row_le_transitive(x, y, z);
    }
    assert forall|x: Seq<char>, y: Seq<char>| #[trigger] r(x, y) || #[trigger] r(y, x) by {
        lemma_row_le_connected(x, y);
    }
}

/// The characters of `s`, in order.
pub fn chars_of(s: &str) -> (chars: Vec<char>)
    ensures
        chars@ == s@,
{
    let mut chars: Vec<char> = Vec::new();
    for c in it: s.chars()
        invariant
            it.seq() == s@,
            chars@ == it.seq().take(it.index() as int),
    {
        chars.push(c);
        assert(chars@ =~= it.seq().take(it.index() + 1));
    }
    assert(s@.take(s@.len() as int) =~= s@);
    chars
}

/// Tells whether `needle` stands in `haystack` at position `at`.
pub fn chars_occur_at(haystack: &Vec<char>, needle: &Vec<char>, at: usize) -> (found: bool)
    ensures
        found == occurs_at(haystack@, needle@, at as int),
{
    let m: usize = needle.len();
    if m > haystack.len() || at > haystack.len() - m {
        return false;
    }
    let mut j: usize = 0;
    while j < m
        invariant
            j <= m,
            m == needle.len(),
            at + m <= haystack.len(),
            forall|k: int| 0 <= k < j ==> haystack@[at + k] == needle@[k],
        decreases m - j,
    {
        if haystack[at + j] != needle[j] {
            assert(haystack@.subrange(at as int, at + m)[j as int] == haystack@[at + j]);
            return false;
        }
        j += 1;
    }
    assert(haystack@.subrange(at as int, at + m) =~= needle@);
    true
}

/// Tells whether `needle` stands somewhere in `haystack`. The empty text
/// stands in every text.
pub fn text_contains(haystack: &str, needle: &str) -> (found: bool)
    ensures
        found == contains_text(haystack@, needle@),
{
    let h: Vec<char> = chars_of(haystack);
    let n: Vec<char> = chars_of(needle);
    if n.len() > h.len() {
        return false;
    }
    let last: usize = h.len() - n.len();
    let mut at: usize = 0;
    while at < last
        invariant
            at <= last,
            last == h.len() - n.len(),
            n.len() <= h.len(),
            h@ == haystack@,
            n@ == needle@,
            forall|k: int| 0 <= k < at ==> !occurs_at(h@, n@, k),
        decreases last - at,
    {
        if chars_occur_at(&h, &n, at) {
            return true;
        }
        at += 1;
    }
    chars_occur_at(&h, &n, last)
}

/// Tells whether row `a` comes no later than row `b` in the canonical order.
pub fn chars_le(a: &Vec<char>, b: &Vec<char>) -> (le: bool)
    ensures
        le == row_le(a@, b@),
{
    let mut i: usize = 0;
    assert(a@.skip(0) =~= a@ && b@.skip(0) =~= b@);
    while i < a.len() && i < b.len()
        invariant
            i <= a.len(),
            i <= b.len(),
            row_le(a@, b@) == row_le(a@.skip(i as int), b@.skip(i as int)),
        decreases a.len() - i,
    {
        let x: char = a[i];
        let y: char = b[i];
        assert(a@.skip(i as int)[0] == x && b@.skip(i as int)[0] == y);
        if x != y {
            return x < y;
        }
        assert(a@.skip(i as int).drop_first() =~= a@.skip(i + 1));
        assert(b@.skip(i as int).drop_first() =~= b@.skip(i + 1));
        i += 1;
    }
    i == a.len()
}

} // verus!
