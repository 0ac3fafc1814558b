use vstd::prelude::*;
use vstd::seq_lib::to_multiset_remove;
use vstd::seq_lib::to_multiset_insert;
use vstd::seq_lib::to_multiset_contains;
use vstd::multiset::Multiset;
use crate::FileItem;

verus! {

/// The lowercase form of a text, as `str::to_lowercase` gives it.
pub uninterp spec fn lower_of(s: Seq<char>) -> Seq<char>;

/// Relies on `str::to_lowercase`: the lowercase form depends on the text
/// alone.
#[verifier::external_body]
fn lowercase(s: &str) -> (r: String)
    ensures
        r@ == lower_of(s@),
{
    s.to_lowercase()
}

/// Whether `a` comes no later than `b` in the order of their characters'
/// code points, a prefix first.
pub open spec fn lex_le(a: Seq<char>, b: Seq<char>) -> bool
    decreases a.len(),
{
    if a.len() == 0 {
        true
    } else if b.len() == 0 {
        false
    } else if a[0] != b[0] {
        a[0] < b[0]
    } else {
        lex_le(a.drop_first(), b.drop_first())
    }
}

/// Whether an entry (directory or not, with lowercased name) may come before
/// another in a listing: directories first, then by lowercased name.
pub open spec fn precedes(a_dir: bool, a_lower: Seq<char>, b_dir: bool, b_lower: Seq<char>) -> bool {
    (a_dir && !b_dir) || (a_dir == b_dir && lex_le(a_lower, b_lower))
}

/// The order of a listing, on its entries.
pub open spec fn item_precedes(a: FileItem, b: FileItem) -> bool {
    precedes(a.is_dir, lower_of(a.name@), b.is_dir, lower_of(b.name@))
}

/// Whether a listing is in order.
pub open spec fn listing_sorted(s: Seq<FileItem>) -> bool {
    forall|i: int, j: int| 0 <= i < j < s.len() ==> item_precedes(#[trigger] s[i], #[trigger] s[j])
}

/// The position of the first entry of `s` that `x` may precede, or the
/// length of `s` when there is none.
pub open spec fn first_preceded(x: FileItem, s: Seq<FileItem>) -> nat
    decreases s.len(),
{
    if s.len() == 0 || item_precedes(x, s[0]) {
        0
    } else {
        first_preceded(x, s.drop_first()) + 1
    }
}

/// The listing `s` in order, entries that tie kept in their order in `s`:
/// each entry, from the last to the first, is put before the first already
/// placed entry that it may precede, so it lands before every later entry it
/// ties with.
pub open spec fn stable_sorted(s: Seq<FileItem>) -> Seq<FileItem>
    decreases s.len(),
{
    if s.len() == 0 {
        s
    } else {
        let rest = stable_sorted(s.drop_first());
        rest.insert(first_preceded(s[0], rest) as int, s[0])
    }
}

proof fn lemma_first_preceded(x: FileItem, s: Seq<FileItem>, p: int)
    requires
        0 <= p <= s.len(),
        forall|i: int| 0 <= i < p ==> !item_precedes(x, #[trigger] s[i]),
        p == s.len() || item_precedes(x, s[p]),
    ensures
        first_preceded(x, s) == p,
    decreases p,
{
    if p > 0 {
        assert forall|i: int| 0 <= i < p - 1 implies !item_precedes(x, #[trigger] s.drop_first()[i]) by {
            assert(s.drop_first()[i] == s[i + 1]);
        }
        if p < s.len() {
            assert(s.drop_first()[p - 1] == s[p]);
        }
        lemma_first_preceded(x, s.drop_first(), p - 1);
    }
}

proof fn lemma_lex_total(a: Seq<char>, b: Seq<char>)
    ensures
        lex_le(a, b) || lex_le(b, a),
    decreases a.len(),
{
    if a.len() > 0 && b.len() > 0 {
        if a[0] == b[0] {
            lemma_lex_total(a.drop_first(), b.drop_first());
        }
    }
}

proof fn lemma_lex_trans(a: Seq<char>, b: Seq<char>, c: Seq<char>)
    requires
        lex_le(a, b),
        lex_le(b, c),
    ensures
        lex_le(a, c),
    decreases a.len(),
{
    if a.len() > 0 && b.len() > 0 && c.len() > 0 && a[0] == b[0] && b[0] == c[0] {
        lemma_lex_trans(a.drop_first(), b.drop_first(), c.drop_first());
    }
}

proof fn lemma_precedes_total(a: FileItem, b: FileItem)
    ensures
        item_precedes(a, b) || item_precedes(b, a),
{
    lemma_lex_total(lower_of(a.name@), lower_of(b.name@));
}

proof fn lemma_precedes_trans(a: FileItem, b: FileItem, c: FileItem)
    requires
        item_precedes(a, b),
        item_precedes(b, c),
    ensures
        item_precedes(a, c),
{
    if a.is_dir == b.is_dir && b.is_dir == c.is_dir {
        lemma_lex_trans(lower_of(a.name@), lower_of(b.name@), lower_of(c.name@));
    }
}

/// Whether `a` comes no later than `b`, as `lex_le` says.
pub fn text_le(a: &str, b: &str) -> (r: bool)
    ensures
        r == lex_le(a@, b@),
{
    let n = a.unicode_len();
    let m = b.unicode_len();
    let mut i: usize = 0;
    assert(a@.skip(0) =~= a@);
    assert(b@.skip(0) =~= b@);
    while i < n && i < m && a.get_char(i) == b.get_char(i)
        invariant
            i <= n == a@.len(),
            i <= m == b@.len(),
            lex_le(a@, b@) == lex_le(a@.skip(i as int), b@.skip(i as int)),
        decreases n - i,
    {
        proof {
            assert(a@.skip(i as int).drop_first() =~= a@.skip(i + 1));
            assert(b@.skip(i as int).drop_first() =~= b@.skip(i + 1));
        }
        i += 1;
    }
    if i == n {
        true
    } else if i == m {
        false
    } else {
        a.get_char(i) < b.get_char(i)
    }
}

/// Whether an entry (directory or not, with lowercased name `a_lower`) may
/// come before another, as `precedes` says.
pub fn listing_precedes(a_dir: bool, a_lower: &str, b_dir: bool, b_lower: &str) -> (r: bool)
    ensures
        r == precedes(a_dir, a_lower@, b_dir, b_lower@),
{
    (a_dir && !b_dir) || (a_dir == b_dir && text_le(a_lower, b_lower))
}

/// Puts a listing in order: directories first, then by lowercased name;
/// entries that tie keep their order.
pub fn sort_listing(items: Vec<FileItem>) -> (r: Vec<FileItem>)
    ensures
        r@ == stable_sorted(items@),
        r@.to_multiset() == items@.to_multiset(),
        listing_sorted(r@),
{
    broadcast use vstd::multiset::group_multiset_axioms, vstd::seq_lib::group_to_multiset_ensures;

    let ghost input = items@;
    let mut rest = items;
    let mut sorted: Vec<FileItem> = Vec::new();
    let mut keys: Vec<String> = Vec::new();
    assert(rest@.to_multiset().add(sorted@.to_multiset()) =~= input.to_multiset());
    while rest.len() > 0
        invariant
            rest@.to_multiset().add(sorted@.to_multiset()) == input.to_multiset(),
            listing_sorted(sorted@),
            rest@.len() <= input.len(),
            rest@ == input.subrange(0, rest@.len() as int),
            sorted@ == stable_sorted(input.subrange(rest@.len() as int, input.len() as int)),
            keys@.len() == sorted@.len(),
            forall|i: int| 0 <= i < keys@.len() ==> #[trigger] keys@[i]@ == lower_of(sorted@[i].name@),
        decreases rest@.len(),
    {
        let ghost r0 = rest@;
        let x = rest.pop().unwrap();
        proof {
            to_multiset_remove(r0, r0.len() - 1);
            assert(r0.remove(r0.len() - 1) =~= rest@);
            assert(r0[r0.len() - 1] == x);
            assert(r0.contains(x));
            to_multiset_contains(r0, x);
            assert(rest@.to_multiset() == r0.to_multiset().remove(x));
            let suffix = input.subrange(rest@.len() as int, input.len() as int);
            assert(suffix.drop_first() =~= input.subrange(r0.len() as int, input.len() as int));
            assert(suffix[0] == x);
            assert(rest@ =~= input.subrange(0, rest@.len() as int));
        }
        let xk = lowercase(x.name.as_str());
        let mut p: usize = 0;
        let mut found = false;
        while p < sorted.len() && !found
            invariant
                p <= sorted@.len() == keys@.len(),
                xk@ == lower_of(x.name@),
                forall|i: int| 0 <= i < keys@.len() ==> #[trigger] keys@[i]@ == lower_of(sorted@[i].name@),
                forall|i: int| 0 <= i < p ==> !item_precedes(x, #[trigger] sorted@[i]),
                found ==> p < sorted@.len() && item_precedes(x, sorted@[p as int]),
                rest@.len() < input.len(),
                stable_sorted(input.subrange(rest@.len() as int, input.len() as int)) == sorted@.insert(
                    first_preceded(x, sorted@) as int,
                    x,
                ),
            decreases sorted@.len() - p + if found { 0int } else { 1int },
        {
            assert(keys@[p as int]@ == lower_of(sorted@[p as int].name@));
            if listing_precedes(x.is_dir, xk.as_str(), sorted[p].is_dir, keys[p].as_str()) {
                found = true;
            } else {
                p += 1;
            }
        }
        let ghost s0 = sorted@;
        proof {
            assert forall|i: int| 0 <= i < p implies item_precedes(#[trigger] s0[i], x) by {
                lemma_precedes_total(s0[i], x);
            }
            assert forall|j: int| p <= j < s0.len() implies item_precedes(x, #[trigger] s0[j]) by {
                if j > p {
                    lemma_precedes_trans(x, s0[p as int], s0[j]);
                }
            }
            to_multiset_insert(s0, p as int, x);
            lemma_first_preceded(x, s0, p as int);
        }
        let ghost k0 = keys@;
        sorted.insert(p, x);
        keys.insert(p, xk);
        proof {
            let s1 = sorted@;
            assert(s1 == s0.insert(p as int, x));
            assert forall|i: int, j: int| 0 <= i < j < s1.len() implies item_precedes(#[trigger] s1[i], #[trigger] s1[j]) by {
                if i < p {
                    if j < p {
                        assert(s1[i] == s0[i] && s1[j] == s0[j]);
                    } else if j == p {
                        assert(s1[i] == s0[i]);
                    } else {
                        assert(s1[i] == s0[i] && s1[j] == s0[j - 1]);
                    }
                } else if i == p {
                    assert(s1[j] == s0[j - 1]);
                } else {
                    assert(s1[i] == s0[i - 1] && s1[j] == s0[j - 1]);
                }
            }
            assert forall|i: int| 0 <= i < keys@.len() implies #[trigger] keys@[i]@ == lower_of(sorted@[i].name@) by {
                if i < p {
                    assert(keys@[i] == k0[i]);
                } else if i > p {
                    assert(keys@[i] == k0[i - 1]);
                }
            }
            assert(rest@.to_multiset().add(sorted@.to_multiset()) =~= input.to_multiset());
        }
    }
    proof {
        assert(rest@.to_multiset() =~= Multiset::empty());
        assert(input.subrange(0, input.len() as int) =~= input);
    }
    sorted
}

} // verus!
