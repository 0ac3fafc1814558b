use vstd::prelude::*;
use crate::paths::{PathStyle, relative_of, trimmed_len, skip_seps, normalized, joined, is_clean_relative, lemma_relative_of_joined};
use crate::transfer::{
    ScannedFile, TargetFile, TransferManifest, is_recorded, entry_of, manifest_entries,
    manifest_size, scanned_size, verify_tally, tally_clean, missing_line, mismatch_line,
};

verus! {

/// When every file that the walk found was read and lies under the root, the
/// manifest has one entry per file, and its total size is the sum of the
/// sizes of all of them.
pub proof fn lemma_manifest_counts_every_file(style: PathStyle, root: Seq<char>, files: Seq<ScannedFile>)
    requires
        forall|i: int| 0 <= i < files.len() ==> is_recorded(style, root, #[trigger] files[i]),
    ensures
        manifest_entries(style, root, files).len() == files.len(),
        manifest_size(style, root, files) == scanned_size(files),
    decreases files.len(),
{
    if files.len() > 0 {
        let rest = files.drop_last();
        assert forall|i: int| 0 <= i < rest.len() implies is_recorded(style, root, #[trigger] rest[i]) by {
            assert(rest[i] == files[i]);
        }
        lemma_manifest_counts_every_file(style, root, rest);
        assert(is_recorded(style, root, files[files.len() - 1]));
    }
}

/// An entry is in the manifest exactly when some scanned file that goes into
/// it has that entry.
pub proof fn lemma_manifest_entry_source(style: PathStyle, root: Seq<char>, files: Seq<ScannedFile>)
    ensures
        forall|e: (Seq<char>, Seq<char>)|
            manifest_entries(style, root, files).contains(e) <==> exists|i: int|
                0 <= i < files.len() && is_recorded(style, root, #[trigger] files[i]) && entry_of(style, root, files[i]) == e,
    decreases files.len(),
{
    if files.len() > 0 {
        let rest = files.drop_last();
        let prev = manifest_entries(style, root, rest);
        let all = manifest_entries(style, root, files);
        let last = files.last();
        lemma_manifest_entry_source(style, root, rest);
        assert forall|e: (Seq<char>, Seq<char>)|
            all.contains(e) <==> exists|i: int|
                0 <= i < files.len() && is_recorded(style, root, #[trigger] files[i]) && entry_of(style, root, files[i]) == e by {
            if all.contains(e) {
                let k = choose|k: int| 0 <= k < all.len() && all[k] == e;
                if k < prev.len() {
                    assert(prev.contains(e));
                    let i = choose|i: int|
                        0 <= i < rest.len() && is_recorded(style, root, #[trigger] rest[i]) && entry_of(style, root, rest[i]) == e;
                    assert(files[i] == rest[i]);
                } else {
                    assert(is_recorded(style, root, files[files.len() - 1]));
                }
            }
            if exists|i: int|
                0 <= i < files.len() && is_recorded(style, root, #[trigger] files[i]) && entry_of(style, root, files[i]) == e {
                let i = choose|i: int|
                    0 <= i < files.len() && is_recorded(style, root, #[trigger] files[i]) && entry_of(style, root, files[i]) == e;
                if i < rest.len() {
                    assert(rest[i] == files[i]);
                    assert(prev.contains(e));
                    let k = choose|k: int| 0 <= k < prev.len() && prev[k] == e;
                    assert(all[k] == e);
                } else {
                    assert(all[all.len() - 1] == e);
                }
            }
        }
    }
}

/// Scanning the same files again, in any order and with any repeats, gives a
/// manifest with the same set of entries.
pub proof fn lemma_manifest_entry_set_stable(style: PathStyle, root: Seq<char>, first: Seq<ScannedFile>, second: Seq<ScannedFile>)
    requires
        first.to_set() == second.to_set(),
    ensures
        manifest_entries(style, root, first).to_set() == manifest_entries(style, root, second).to_set(),
{
    lemma_manifest_entry_source(style, root, first);
    lemma_manifest_entry_source(style, root, second);
    assert forall|e: (Seq<char>, Seq<char>)|
        manifest_entries(style, root, first).contains(e) implies manifest_entries(style, root, second).contains(e) by {
        let i = choose|i: int|
            0 <= i < first.len() && is_recorded(style, root, #[trigger] first[i]) && entry_of(style, root, first[i]) == e;
        assert(first.to_set().contains(first[i]));
        assert(second.to_set().contains(first[i]));
        let j = choose|j: int| 0 <= j < second.len() && second[j] == first[i];
        assert(is_recorded(style, root, second[j]));
    }
    assert forall|e: (Seq<char>, Seq<char>)|
        manifest_entries(style, root, second).contains(e) implies manifest_entries(style, root, first).contains(e) by {
        let i = choose|i: int|
            0 <= i < second.len() && is_recorded(style, root, #[trigger] second[i]) && entry_of(style, root, second[i]) == e;
        assert(second.to_set().contains(second[i]));
        assert(first.to_set().contains(second[i]));
        let j = choose|j: int| 0 <= j < first.len() && first[j] == second[i];
        assert(is_recorded(style, root, first[j]));
    }
    assert(manifest_entries(style, root, first).to_set() =~= manifest_entries(style, root, second).to_set());
}

/// Whether `path` lies right below `root`: after the root comes exactly one
/// separator, then the rest of the path.
pub open spec fn is_right_below(style: PathStyle, root: Seq<char>, path: Seq<char>) -> bool {
    let k = trimmed_len(style, root);
    relative_of(style, root, path) is Some && k < path.len() && skip_seps(style, path, k) == k + 1
}

proof fn lemma_unix_relative_injective(root: Seq<char>, p1: Seq<char>, p2: Seq<char>)
    requires
        is_right_below(PathStyle::Unix, root, p1),
        is_right_below(PathStyle::Unix, root, p2),
        relative_of(PathStyle::Unix, root, p1) == relative_of(PathStyle::Unix, root, p2),
    ensures
        p1 == p2,
{
    let style = PathStyle::Unix;
    let k = trimmed_len(style, root) as int;
    let r1 = p1.subrange(k + 1, p1.len() as int);
    let r2 = p2.subrange(k + 1, p2.len() as int);
    assert(normalized(style, r1) =~= r1);
    assert(normalized(style, r2) =~= r2);
    assert(p1[k] == '/');
    assert(p2[k] == '/');
    assert(p1 =~= p1.subrange(0, k).push('/') + r1);
    assert(p2 =~= p2.subrange(0, k).push('/') + r2);
}

/// With Unix paths, a walk that lists each file once, right below the root,
/// gives a manifest whose paths are pairwise distinct: a '\\' in a name is
/// kept, so no two files share a path.
pub proof fn lemma_unix_manifest_paths_distinct(root: Seq<char>, files: Seq<ScannedFile>)
    requires
        forall|i: int, j: int| 0 <= i < j < files.len() ==> files[i].path@ != files[j].path@,
        forall|i: int|
            0 <= i < files.len() && is_recorded(PathStyle::Unix, root, #[trigger] files[i]) ==> is_right_below(
                PathStyle::Unix,
                root,
                files[i].path@,
            ),
    ensures
        forall|i: int, j: int|
            0 <= i < j < manifest_entries(PathStyle::Unix, root, files).len() ==> manifest_entries(
                PathStyle::Unix,
                root,
                files,
            )[i].0 != manifest_entries(PathStyle::Unix, root, files)[j].0,
    decreases files.len(),
{
    let style = PathStyle::Unix;
    if files.len() > 0 {
        let rest = files.drop_last();
        let n = files.len() - 1;
        assert forall|i: int, j: int| 0 <= i < j < rest.len() implies rest[i].path@ != rest[j].path@ by {
            assert(rest[i] == files[i] && rest[j] == files[j]);
        }
        assert forall|i: int|
            0 <= i < rest.len() && is_recorded(style, root, #[trigger] rest[i]) implies is_right_below(
                style,
                root,
                rest[i].path@,
            ) by {
            assert(rest[i] == files[i]);
        }
        lemma_unix_manifest_paths_distinct(root, rest);
        let prev = manifest_entries(style, root, rest);
        let all = manifest_entries(style, root, files);
        if is_recorded(style, root, files[n]) {
            lemma_manifest_entry_source(style, root, rest);
            assert forall|i: int| 0 <= i < prev.len() implies prev[i].0 != entry_of(style, root, files[n]).0 by {
                assert(prev.contains(prev[i]));
                let m = choose|m: int|
                    0 <= m < rest.len() && is_recorded(style, root, #[trigger] rest[m]) && entry_of(style, root, rest[m])
                        == prev[i];
                assert(rest[m] == files[m]);
                if prev[i].0 == entry_of(style, root, files[n]).0 {
                    lemma_unix_relative_injective(root, files[m].path@, files[n].path@);
                }
            }
            assert forall|i: int, j: int| 0 <= i < j < all.len() implies all[i].0 != all[j].0 by {
                if j < prev.len() {
                    assert(all[i] == prev[i] && all[j] == prev[j]);
                } else {
                    assert(all[i] == prev[i]);
                }
            }
        }
    }
}

/// Whether `copy` is the file `orig` of the tree at `source` placed under
/// `target` at the same relative path, with the same checksum and size.
pub open spec fn is_placed_copy(style: PathStyle, source: Seq<char>, target: Seq<char>, orig: ScannedFile, copy: ScannedFile) -> bool {
    &&& copy.path@ == joined(style, target, relative_of(style, source, orig.path@)->0)
    &&& copy.checksum == orig.checksum
    &&& copy.size == orig.size
}

/// Moving a tree to another root keeps its manifest: when every file of the
/// source reappears under the target at its relative path with the same
/// content, the two manifests have the same entries, in the same order.
pub proof fn lemma_manifest_survives_move(
    style: PathStyle,
    source: Seq<char>,
    target: Seq<char>,
    src_files: Seq<ScannedFile>,
    dst_files: Seq<ScannedFile>,
)
    requires
        src_files.len() == dst_files.len(),
        forall|i: int|
            0 <= i < src_files.len() ==> is_recorded(style, source, #[trigger] src_files[i]) && is_clean_relative(style, 
                relative_of(style, source, src_files[i].path@)->0,
            ),
        forall|i: int|
            0 <= i < src_files.len() ==> is_placed_copy(style, source, target, #[trigger] src_files[i], dst_files[i]),
    ensures
        manifest_entries(style, source, src_files) == manifest_entries(style, target, dst_files),
    decreases src_files.len(),
{
    if src_files.len() > 0 {
        let (s, d) = (src_files.drop_last(), dst_files.drop_last());
        assert forall|i: int| 0 <= i < s.len() implies is_recorded(style, source, #[trigger] s[i]) && is_clean_relative(style, 
            relative_of(style, source, s[i].path@)->0,
        ) by {
            assert(s[i] == src_files[i]);
        }
        assert forall|i: int| 0 <= i < s.len() implies is_placed_copy(style, source, target, #[trigger] s[i], d[i]) by {
            assert(s[i] == src_files[i]);
            assert(d[i] == dst_files[i]);
        }
        lemma_manifest_survives_move(style, source, target, s, d);
        let n = src_files.len() - 1;
        assert(is_recorded(style, source, src_files[n]));
        assert(is_placed_copy(style, source, target, src_files[n], dst_files[n]));
        lemma_relative_of_joined(style, target, relative_of(style, source, src_files[n].path@)->0);
    }
}

/// Archiving a tree and extracting it under another root gives the same set
/// of manifest entries, and so of paths, whatever order the extracted tree is
/// walked in: the files found under the target are those of the source
/// placed at their relative paths (`placed`), walked in any order (`found`).
pub proof fn lemma_round_trip_entry_set(
    style: PathStyle,
    source: Seq<char>,
    target: Seq<char>,
    src_files: Seq<ScannedFile>,
    placed: Seq<ScannedFile>,
    found: Seq<ScannedFile>,
)
    requires
        src_files.len() == placed.len(),
        forall|i: int|
            0 <= i < src_files.len() ==> is_recorded(style, source, #[trigger] src_files[i]) && is_clean_relative(style, 
                relative_of(style, source, src_files[i].path@)->0,
            ),
        forall|i: int|
            0 <= i < src_files.len() ==> is_placed_copy(style, source, target, #[trigger] src_files[i], placed[i]),
        found.to_set() == placed.to_set(),
    ensures
        manifest_entries(style, source, src_files).to_set() == manifest_entries(style, target, found).to_set(),
        manifest_paths(manifest_entries(style, source, src_files)).to_set() == manifest_paths(
            manifest_entries(style, target, found),
        ).to_set(),
{
    lemma_manifest_survives_move(style, source, target, src_files, placed);
    lemma_manifest_entry_set_stable(style, target, placed, found);
    let a = manifest_entries(style, source, src_files);
    let b = manifest_entries(style, target, found);
    assert forall|x: Seq<char>| manifest_paths(a).contains(x) implies manifest_paths(b).contains(x) by {
        let i = choose|i: int| 0 <= i < a.len() && manifest_paths(a)[i] == x;
        assert(a.to_set().contains(a[i]));
        assert(b.to_set().contains(a[i]));
        let j = choose|j: int| 0 <= j < b.len() && b[j] == a[i];
        assert(manifest_paths(b)[j] == x);
    }
    assert forall|x: Seq<char>| manifest_paths(b).contains(x) implies manifest_paths(a).contains(x) by {
        let i = choose|i: int| 0 <= i < b.len() && manifest_paths(b)[i] == x;
        assert(b.to_set().contains(b[i]));
        assert(a.to_set().contains(b[i]));
        let j = choose|j: int| 0 <= j < a.len() && a[j] == b[i];
        assert(manifest_paths(a)[j] == x);
    }
    assert(manifest_paths(a).to_set() =~= manifest_paths(b).to_set());
}

/// The paths of a manifest's entries, in order.
pub open spec fn manifest_paths(entries: Seq<(Seq<char>, Seq<char>)>) -> Seq<Seq<char>> {
    entries.map_values(|e: (Seq<char>, Seq<char>)| e.0)
}

/// Whether the target file is a faithful copy of a file with this checksum:
/// present, with the same checksum, and its size readable.
pub open spec fn is_faithful(expected: Seq<char>, f: TargetFile) -> bool {
    match f {
        TargetFile::Present { checksum, size } => checksum@ == expected && size is Some,
        _ => false,
    }
}

/// Whether the target file is present but its checksum differs.
pub open spec fn is_corrupted(expected: Seq<char>, f: TargetFile) -> bool {
    match f {
        TargetFile::Present { checksum, .. } => checksum@ != expected,
        _ => false,
    }
}

proof fn lemma_at_most_one_fault(entries: Seq<(Seq<char>, Seq<char>)>, found: Seq<TargetFile>, k: int)
    requires
        entries.len() == found.len(),
        0 <= k,
        forall|i: int| 0 <= i < found.len() && i != k ==> is_faithful(entries[i].1, #[trigger] found[i]),
        k < found.len() ==> found[k] is Missing || is_corrupted(entries[k].1, found[k]),
    ensures
        verify_tally(entries, found) is Ok,
        ({
            let t = verify_tally(entries, found)->Ok_0;
            &&& k >= found.len() ==> {
                &&& t.missing.len() == 0
                &&& t.mismatched.len() == 0
                &&& t.lines.len() == 0
                &&& t.files == found.len()
            }
            &&& k < found.len() && found[k] is Missing ==> {
                &&& t.missing == seq![entries[k].0]
                &&& t.mismatched.len() == 0
                &&& t.lines == seq![missing_line(entries[k].0)]
                &&& t.files == found.len() - 1
            }
            &&& k < found.len() && is_corrupted(entries[k].1, found[k]) ==> {
                &&& t.missing.len() == 0
                &&& t.mismatched == seq![entries[k].0]
                &&& t.lines == seq![mismatch_line(entries[k].0)]
                &&& t.files == found.len() - 1
            }
        }),
    decreases found.len(),
{
    if found.len() > 0 {
        let n = found.len() - 1;
        let (e, f) = (entries.subrange(0, n), found.drop_last());
        assert forall|i: int| 0 <= i < f.len() && i != k implies is_faithful(e[i].1, #[trigger] f[i]) by {
            assert(f[i] == found[i]);
            assert(e[i] == entries[i]);
        }
        if k < n {
            assert(f[k] == found[k]);
            assert(e[k] == entries[k]);
        }
        lemma_at_most_one_fault(e, f, k);
        if n != k {
            assert(is_faithful(entries[n].1, found[n]));
        }
    }
}

/// Verifying a faithful copy of every file of a manifest finds no
/// discrepancy, and counts every file of the manifest as transferred.
pub proof fn lemma_faithful_copy_verifies(m: TransferManifest, found: Seq<TargetFile>)
    requires
        m.wf(),
        found.len() == m.entries().len(),
        forall|i: int| 0 <= i < found.len() ==> is_faithful(m.entries()[i].1, #[trigger] found[i]),
    ensures
        verify_tally(m.entries(), found) is Ok,
        tally_clean(verify_tally(m.entries(), found)->Ok_0),
        verify_tally(m.entries(), found)->Ok_0.files == m.file_count,
{
    lemma_at_most_one_fault(m.entries(), found, found.len() as int);
}

/// When one file of a faithful copy is changed, verification fails and
/// reports exactly that file as mismatched, and nothing else.
pub proof fn lemma_one_corrupted_file_reported(m: TransferManifest, found: Seq<TargetFile>, k: int)
    requires
        m.wf(),
        found.len() == m.entries().len(),
        0 <= k < found.len(),
        is_corrupted(m.entries()[k].1, found[k]),
        forall|i: int| 0 <= i < found.len() && i != k ==> is_faithful(m.entries()[i].1, #[trigger] found[i]),
    ensures
        verify_tally(m.entries(), found) is Ok,
        ({
            let t = verify_tally(m.entries(), found)->Ok_0;
            &&& !tally_clean(t)
            &&& t.mismatched == seq![m.checksums@[k].path@]
            &&& t.missing.len() == 0
            &&& t.lines == seq![mismatch_line(m.checksums@[k].path@)]
        }),
{
    lemma_at_most_one_fault(m.entries(), found, k);
}

/// When one file of a faithful copy is deleted, verification reports exactly
/// that file as missing, and every other file as verified.
pub proof fn lemma_one_missing_file_reported(m: TransferManifest, found: Seq<TargetFile>, k: int)
    requires
        m.wf(),
        found.len() == m.entries().len(),
        0 <= k < found.len(),
        found[k] is Missing,
        forall|i: int| 0 <= i < found.len() && i != k ==> is_faithful(m.entries()[i].1, #[trigger] found[i]),
    ensures
        verify_tally(m.entries(), found) is Ok,
        ({
            let t = verify_tally(m.entries(), found)->Ok_0;
            &&& !tally_clean(t)
            &&& t.missing == seq![m.checksums@[k].path@]
            &&& t.mismatched.len() == 0
            &&& t.lines == seq![missing_line(m.checksums@[k].path@)]
            &&& t.files == m.file_count - 1
        }),
{
    lemma_at_most_one_fault(m.entries(), found, k);
}

} // verus!
