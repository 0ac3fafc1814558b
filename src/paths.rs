use vstd::prelude::*;

verus! {

/// How a platform separates the parts of a path.
#[derive(Debug, Clone, Copy, PartialEq, Eq)]
pub enum PathStyle {
    /// Only '/' separates; '\\' is an ordinary character of a name.
    Unix,
    /// Both '/' and '\\' separate.
    Windows,
}

/// Whether `c` separates the parts of a path in `style`.
pub open spec fn is_sep(style: PathStyle, c: char) -> bool {
    c == '/' || (style == PathStyle::Windows && c == '\\')
}

/// A separator becomes a forward slash; any other character stays.
pub open spec fn slash_of(style: PathStyle, c: char) -> char {
    if is_sep(style, c) {
        '/'
    } else {
        c
    }
}

/// The path with every separator of `style` written as a forward slash.
pub open spec fn normalized(style: PathStyle, s: Seq<char>) -> Seq<char> {
    s.map_values(|c: char| slash_of(style, c))
}

/// The length of `s` once its trailing separators are dropped.
pub open spec fn trimmed_len(style: PathStyle, s: Seq<char>) -> nat
    decreases s.len(),
{
    if s.len() > 0 && is_sep(style, s.last()) {
        trimmed_len(style, s.drop_last())
    } else {
        s.len()
    }
}

/// The first index at or after `i` that does not hold a separator.
pub open spec fn skip_seps(style: PathStyle, s: Seq<char>, i: nat) -> nat
    decreases s.len() - i,
{
    if i < s.len() && is_sep(style, s[i as int]) {
        skip_seps(style, s, i + 1)
    } else {
        i
    }
}

/// The path of `path` relative to `root`, with its separators (those of
/// `style`) written as forward slashes, if `path` lies under `root`: `path` starts with `root` (trailing separators of `root`
/// aside), followed by the end of `path` or a separator. The separators
/// right after `root` are not part of the result.
pub open spec fn relative_of(style: PathStyle, root: Seq<char>, path: Seq<char>) -> Option<Seq<char>> {
    let k = trimmed_len(style, root);
    if k <= path.len() && path.subrange(0, k as int) == root.subrange(0, k as int) && (k
        == path.len() || is_sep(style, path[k as int])) {
        Some(normalized(style, path.subrange(skip_seps(style, path, k) as int, path.len() as int)))
    } else {
        None
    }
}

/// `rel` placed under `root`, joined by one forward slash.
pub open spec fn joined(style: PathStyle, root: Seq<char>, rel: Seq<char>) -> Seq<char> {
    root.subrange(0, trimmed_len(style, root) as int).push('/') + rel
}

/// A relative path as the manifest stores it: not empty, not starting with a
/// separator, every separator written as a forward slash.
pub open spec fn is_clean_relative(style: PathStyle, rel: Seq<char>) -> bool {
    &&& rel.len() > 0
    &&& !is_sep(style, rel[0])
    &&& forall|i: int| 0 <= i < rel.len() ==> !is_sep(style, rel[i]) || rel[i] == '/'
}

proof fn lemma_trimmed_len_le(style: PathStyle, s: Seq<char>)
    ensures
        trimmed_len(style, s) <= s.len(),
    decreases s.len(),
{
    if s.len() > 0 && is_sep(style, s.last()) {
        lemma_trimmed_len_le(style, s.drop_last());
    }
}

/// A path joined under a root is found again under that root, as the same
/// relative path.
pub proof fn lemma_relative_of_joined(style: PathStyle, root: Seq<char>, rel: Seq<char>)
    requires
        is_clean_relative(style, rel),
    ensures
        relative_of(style, root, joined(style, root, rel)) == Some(rel),
{
    let k = trimmed_len(style, root);
    let p = joined(style, root, rel);
    lemma_trimmed_len_le(style, root);
    assert(p.subrange(0, k as int) =~= root.subrange(0, k as int));
    assert(p[k as int] == '/');
    assert(skip_seps(style, p, k + 1) == k + 1) by {
        assert(p[(k + 1) as int] == rel[0]);
    }
    assert(skip_seps(style, p, k) == k + 1);
    assert(p.subrange((k + 1) as int, p.len() as int) =~= rel);
    assert(normalized(style, rel) =~= rel) by {
        assert forall|i: int| 0 <= i < rel.len() implies normalized(style, rel)[i] == rel[i] by {
            assert(!is_sep(style, rel[i]) || rel[i] == '/');
        }
    }
}

fn is_sep_exec(style: PathStyle, c: char) -> (r: bool)
    ensures
        r == is_sep(style, c),
{
    match style {
        PathStyle::Unix => c == '/',
        PathStyle::Windows => c == '/' || c == '\\',
    }
}

/// The path of `path` relative to `root`, with forward slashes; `None` when
/// `path` does not lie under `root`.
pub fn relative_path(style: PathStyle, root: &str, path: &str) -> (r: Option<String>)
    ensures
        r is Some <==> relative_of(style, root@, path@) is Some,
        r is Some ==> r->0@ == relative_of(style, root@, path@)->0,
{
    let rl = root.unicode_len();
    let pl = path.unicode_len();
    let mut k: usize = rl;
    assert(root@.subrange(0, rl as int) =~= root@);
    while k > 0 && is_sep_exec(style, root.get_char(k - 1))
        invariant
            k <= rl == root@.len(),
            trimmed_len(style, root@) == trimmed_len(style, root@.subrange(0, k as int)),
        decreases k,
    {
        proof {
            assert(root@.subrange(0, k as int).drop_last() =~= root@.subrange(0, k - 1));
        }
        k -= 1;
    }
    proof {
        if k == 0 {
            assert(root@.subrange(0, 0).len() == 0);
        }
    }
    assert(trimmed_len(style, root@) == k);
    if k > pl {
        return None;
    }
    let mut i: usize = 0;
    while i < k
        invariant
            i <= k <= pl == path@.len(),
            k <= rl == root@.len(),
            k == trimmed_len(style, root@),
            forall|j: int| 0 <= j < i ==> path@[j] == root@[j],
        decreases k - i,
    {
        if path.get_char(i) != root.get_char(i) {
            proof {
                assert(path@.subrange(0, k as int)[i as int] != root@.subrange(0, k as int)[i as int]);
                assert(path@.subrange(0, k as int) != root@.subrange(0, k as int));
            }
            return None;
        }
        i += 1;
    }
    assert(path@.subrange(0, k as int) =~= root@.subrange(0, k as int));
    if k < pl && !is_sep_exec(style, path.get_char(k)) {
        return None;
    }
    let mut j: usize = k;
    while j < pl && is_sep_exec(style, path.get_char(j))
        invariant
            k <= j <= pl == path@.len(),
            skip_seps(style, path@, k as nat) == skip_seps(style, path@, j as nat),
        decreases pl - j,
    {
        j += 1;
    }
    let start = j;
    let mut out = String::new();
    while j < pl
        invariant
            start <= j <= pl == path@.len(),
            out@ == normalized(style, path@.subrange(start as int, j as int)),
        decreases pl - j,
    {
        let c = path.get_char(j);
        if is_sep_exec(style, c) {
            out.push('/');
        } else {
            out.push(c);
        }
        proof {
            assert(normalized(style, path@.subrange(start as int, j + 1)) =~= normalized(style, 
                path@.subrange(start as int, j as int),
            ).push(slash_of(style, c)));
        }
        j += 1;
    }
    Some(out)
}

/// `rel` placed under `root`, joined by one forward slash (trailing separators
/// of `root` are dropped first).
pub fn join_path(style: PathStyle, root: &str, rel: &str) -> (r: String)
    ensures
        r@ == joined(style, root@, rel@),
{
    let rl = root.unicode_len();
    let mut k: usize = rl;
    assert(root@.subrange(0, rl as int) =~= root@);
    while k > 0 && is_sep_exec(style, root.get_char(k - 1))
        invariant
            k <= rl == root@.len(),
            trimmed_len(style, root@) == trimmed_len(style, root@.subrange(0, k as int)),
        decreases k,
    {
        proof {
            assert(root@.subrange(0, k as int).drop_last() =~= root@.subrange(0, k - 1));
        }
        k -= 1;
    }
    proof {
        if k == 0 {
            assert(root@.subrange(0, 0).len() == 0);
        }
    }
    assert(trimmed_len(style, root@) == k);
    let mut out = String::from_str(root.substring_char(0, k));
    out.push('/');
    out.append(rel);
    out
}

} // verus!
