use vstd::prelude::*;
use crate::checksum::{is_checksum_text, is_hex_char};
use crate::text::{decimal_of, push_decimal, push_text};
use crate::paths::{PathStyle, relative_of, relative_path};

verus! {

/// The checksum of one file of a tree, under its path relative to the tree's root.
#[derive(Debug, Clone, PartialEq, Eq)]
pub struct FileChecksum {
    pub path: String,
    pub checksum: String,
}

impl View for FileChecksum {
    type V = (Seq<char>, Seq<char>);

    open spec fn view(&self) -> (Seq<char>, Seq<char>) {
        (self.path@, self.checksum@)
    }
}

/// A record of a tree at one moment: one checksum per file, their number and
/// the sum of their sizes in bytes.
#[derive(Debug, Clone, PartialEq, Eq)]
pub struct TransferManifest {
    pub checksums: Vec<FileChecksum>,
    pub total_size: u64,
    pub file_count: usize,
}

impl TransferManifest {
    /// The recorded (relative path, checksum) pairs, in order.
    pub open spec fn entries(&self) -> Seq<(Seq<char>, Seq<char>)> {
        self.checksums@.map_values(|c: FileChecksum| c@)
    }

    /// The count agrees with the entries, and every checksum has the shape
    /// of a SHA-256 digest in hex.
    pub open spec fn wf(&self) -> bool {
        &&& self.file_count == self.checksums@.len()
        &&& forall|i: int|
            0 <= i < self.checksums@.len() ==> is_checksum_text(#[trigger] self.checksums@[i].checksum@)
    }
}

/// What the walk of a tree found about one file: its full path, its checksum
/// (`None` when it could not be computed) and its size on disk (`None` when
/// it could not be read).
#[derive(Debug, Clone, PartialEq, Eq)]
pub struct ScannedFile {
    pub path: String,
    pub checksum: Option<String>,
    pub size: Option<u64>,
}

/// Whether a scanned file goes into the manifest of the tree at `root`: its
/// checksum and size were read, the checksum has the right shape, and it lies
/// under `root`.
pub open spec fn is_recorded(style: PathStyle, root: Seq<char>, f: ScannedFile) -> bool {
    &&& f.checksum is Some
    &&& is_checksum_text(f.checksum->0@)
    &&& f.size is Some
    &&& relative_of(style, root, f.path@) is Some
}

/// The manifest entry of a scanned file: its relative path and its checksum.
pub open spec fn entry_of(style: PathStyle, root: Seq<char>, f: ScannedFile) -> (Seq<char>, Seq<char>) {
    (relative_of(style, root, f.path@)->0, f.checksum->0@)
}

/// The entries of the manifest built from `files`, in walk order.
pub open spec fn manifest_entries(style: PathStyle, root: Seq<char>, files: Seq<ScannedFile>) -> Seq<(Seq<char>, Seq<char>)>
    decreases files.len(),
{
    if files.len() == 0 {
        Seq::empty()
    } else {
        let prev = manifest_entries(style, root, files.drop_last());
        if is_recorded(style, root, files.last()) {
            prev.push(entry_of(style, root, files.last()))
        } else {
            prev
        }
    }
}

/// The sum of the sizes of the files that go into the manifest.
pub open spec fn manifest_size(style: PathStyle, root: Seq<char>, files: Seq<ScannedFile>) -> nat
    decreases files.len(),
{
    if files.len() == 0 {
        0
    } else {
        let prev = manifest_size(style, root, files.drop_last());
        if is_recorded(style, root, files.last()) {
            prev + (files.last().size->0) as nat
        } else {
            prev
        }
    }
}

/// The sum of the sizes of all scanned files whose size was read.
pub open spec fn scanned_size(files: Seq<ScannedFile>) -> nat
    decreases files.len(),
{
    if files.len() == 0 {
        0
    } else {
        scanned_size(files.drop_last()) + match files.last().size {
            Some(n) => n as nat,
            None => 0,
        }
    }
}

proof fn lemma_manifest_size_prefix(style: PathStyle, root: Seq<char>, files: Seq<ScannedFile>, i: int, j: int)
    requires
        0 <= i <= j <= files.len(),
    ensures
        manifest_size(style, root, files.subrange(0, i)) <= manifest_size(style, root, files.subrange(0, j)),
    decreases j - i,
{
    if i < j {
        lemma_manifest_size_prefix(style, root, files, i, j - 1);
        assert(files.subrange(0, j).drop_last() =~= files.subrange(0, j - 1));
    }
}

proof fn lemma_manifest_entries_wf(style: PathStyle, root: Seq<char>, files: Seq<ScannedFile>)
    ensures
        forall|i: int|
            0 <= i < manifest_entries(style, root, files).len() ==> is_checksum_text(
                #[trigger] manifest_entries(style, root, files)[i].1,
            ),
    decreases files.len(),
{
    if files.len() > 0 {
        let prev = manifest_entries(style, root, files.drop_last());
        lemma_manifest_entries_wf(style, root, files.drop_last());
        let all = manifest_entries(style, root, files);
        assert forall|i: int| 0 <= i < all.len() implies is_checksum_text(#[trigger] all[i].1) by {
            if i < prev.len() {
                assert(all[i] == prev[i]);
            }
        }
    }
}

fn is_checksum_string(s: &str) -> (r: bool)
    ensures
        r == is_checksum_text(s@),
{
    let n = s.unicode_len();
    if n != 64 {
        return false;
    }
    let mut i: usize = 0;
    while i < n
        invariant
            i <= n == s@.len() == 64,
            forall|j: int| 0 <= j < i ==> is_hex_char(#[trigger] s@[j]),
        decreases n - i,
    {
        let c = s.get_char(i);
        if !(('0' <= c && c <= '9') || ('a' <= c && c <= 'f')) {
            return false;
        }
        i += 1;
    }
    true
}

/// Builds the manifest of the tree at `root` from what its walk found, in walk
/// order. A file whose checksum or size could not be read, or whose checksum
/// is malformed, is left out; so is a path that does not lie under `root`.
pub fn build_manifest(style: PathStyle, root: &str, files: &Vec<ScannedFile>) -> (m: TransferManifest)
    requires
        manifest_size(style, root@, files@) <= u64::MAX,
    ensures
        m.wf(),
        m.entries() == manifest_entries(style, root@, files@),
        m.total_size == manifest_size(style, root@, files@),
{
    let mut checksums: Vec<FileChecksum> = Vec::new();
    let mut total: u64 = 0;
    let mut i: usize = 0;
    while i < files.len()
        invariant
            i <= files@.len(),
            manifest_size(style, root@, files@) <= u64::MAX,
            checksums@.map_values(|c: FileChecksum| c@) == manifest_entries(style, root@, files@.subrange(0, i as int)),
            total == manifest_size(style, root@, files@.subrange(0, i as int)),
        decreases files@.len() - i,
    {
        let f = &files[i];
        proof {
            assert(files@.subrange(0, i + 1).drop_last() =~= files@.subrange(0, i as int));
            assert(files@.subrange(0, i + 1).last() == *f);
            lemma_manifest_size_prefix(style, root@, files@, i + 1, files@.len() as int);
            assert(files@.subrange(0, files@.len() as int) =~= files@);
        }
        match (&f.checksum, f.size) {
            (Some(c), Some(size)) => {
                if is_checksum_string(c.as_str()) {
                    match relative_path(style, root, f.path.as_str()) {
                        Some(rel) => {
                            let entry = FileChecksum { path: rel, checksum: c.clone() };
                            let ghost before = checksums@;
                            checksums.push(entry);
                            proof {
                                assert(checksums@.map_values(|c: FileChecksum| c@) =~= before.map_values(
                                    |c: FileChecksum| c@,
                                ).push(entry@));
                            }
                            total = total + size;
                        },
                        None => {},
                    }
                }
            },
            _ => {},
        }
        i += 1;
    }
    proof {
        assert(files@.subrange(0, files@.len() as int) =~= files@);
        lemma_manifest_entries_wf(style, root@, files@);
        assert forall|j: int| 0 <= j < checksums@.len() implies is_checksum_text(
            #[trigger] checksums@[j].checksum@,
        ) by {
            assert(checksums@.map_values(|c: FileChecksum| c@)[j] == checksums@[j]@);
            assert(manifest_entries(style, root@, files@)[j].1 == checksums@[j].checksum@);
        }
    }
    let n = checksums.len();
    TransferManifest { checksums, total_size: total, file_count: n }
}

/// The outcome of a transfer, or of a verification.
#[derive(Debug, Clone, PartialEq, Eq)]
pub struct TransferResult {
    pub success: bool,
    pub message: String,
    pub transferred_files: usize,
    pub total_size: u64,
}

/// What was found at the target for one manifest entry.
#[derive(Debug, Clone, PartialEq, Eq)]
pub enum TargetFile {
    /// No file at the entry's path.
    Missing,
    /// A file is there, but its checksum could not be computed.
    Unreadable { reason: String },
    /// A file is there with this checksum; its size, when it could be read.
    Present { checksum: String, size: Option<u64> },
}

/// What a verification found, entry by entry: the paths of missing and of
/// mismatched files, one report line per discrepancy, and the number and
/// total size of the verified files.
pub struct VerifyTally {
    pub missing: Seq<Seq<char>>,
    pub mismatched: Seq<Seq<char>>,
    pub lines: Seq<Seq<char>>,
    pub files: nat,
    pub size: nat,
}

pub open spec fn empty_tally() -> VerifyTally {
    VerifyTally { missing: Seq::empty(), mismatched: Seq::empty(), lines: Seq::empty(), files: 0, size: 0 }
}

/// The report line of a missing file.
pub open spec fn missing_line(path: Seq<char>) -> Seq<char> {
    "Missing file: "@ + path
}

/// The report line of a file whose checksum differs.
pub open spec fn mismatch_line(path: Seq<char>) -> Seq<char> {
    "Checksum mismatch for: "@ + path
}

/// The error when a target file's checksum cannot be computed.
pub open spec fn unreadable_error(reason: Seq<char>) -> Seq<char> {
    "Failed to calculate checksum: "@ + reason
}

/// The tally after one more entry, or the error that stops verification.
pub open spec fn tally_step(t: VerifyTally, entry: (Seq<char>, Seq<char>), found: TargetFile) -> Result<VerifyTally, Seq<char>> {
    match found {
        TargetFile::Missing => Ok(
            VerifyTally { missing: t.missing.push(entry.0), lines: t.lines.push(missing_line(entry.0)), ..t },
        ),
        TargetFile::Unreadable { reason } => Err(unreadable_error(reason@)),
        TargetFile::Present { checksum, size } => {
            if checksum@ != entry.1 {
                Ok(
                    VerifyTally {
                        mismatched: t.mismatched.push(entry.0),
                        lines: t.lines.push(mismatch_line(entry.0)),
                        ..t
                    },
                )
            } else {
                match size {
                    Some(n) => Ok(VerifyTally { files: t.files + 1, size: t.size + n as nat, ..t }),
                    None => Ok(t),
                }
            }
        },
    }
}

/// Checking the manifest entries, in order, against what was found for each:
/// the first unreadable file stops the check with an error.
pub open spec fn verify_tally(entries: Seq<(Seq<char>, Seq<char>)>, found: Seq<TargetFile>) -> Result<VerifyTally, Seq<char>>
    decreases found.len(),
{
    if found.len() == 0 {
        Ok(empty_tally())
    } else {
        let n = found.len() - 1;
        match verify_tally(entries.subrange(0, n), found.drop_last()) {
            Err(e) => Err(e),
            Ok(t) => tally_step(t, entries[n], found[n]),
        }
    }
}

/// The lines joined by newlines.
pub open spec fn join_lines(lines: Seq<Seq<char>>) -> Seq<char>
    decreases lines.len(),
{
    if lines.len() == 0 {
        Seq::empty()
    } else if lines.len() == 1 {
        lines[0]
    } else {
        join_lines(lines.drop_last()) + "\n"@ + lines.last()
    }
}

/// Whether a verification found no discrepancy.
pub open spec fn tally_clean(t: VerifyTally) -> bool {
    t.missing.len() == 0 && t.mismatched.len() == 0
}

/// The message that reports a verification.
pub open spec fn verification_message(t: VerifyTally) -> Seq<char> {
    if tally_clean(t) {
        "Successfully verified "@ + decimal_of(t.files) + " files"@
    } else {
        "Transfer verification failed:\n"@ + join_lines(t.lines)
    }
}

/// The sum of the sizes of the present files whose size was read.
pub open spec fn found_size(found: Seq<TargetFile>) -> nat
    decreases found.len(),
{
    if found.len() == 0 {
        0
    } else {
        found_size(found.drop_last()) + match found.last() {
            TargetFile::Present { size: Some(n), .. } => n as nat,
            _ => 0,
        }
    }
}

proof fn lemma_tally_bounds(entries: Seq<(Seq<char>, Seq<char>)>, found: Seq<TargetFile>)
    ensures
        verify_tally(entries, found) is Ok ==> {
            let t = verify_tally(entries, found)->Ok_0;
            &&& t.files + t.missing.len() + t.mismatched.len() <= found.len()
            &&& t.size <= found_size(found)
            &&& t.lines.len() == t.missing.len() + t.mismatched.len()
        },
    decreases found.len(),
{
    if found.len() > 0 {
        lemma_tally_bounds(entries.subrange(0, found.len() - 1), found.drop_last());
    }
}

proof fn lemma_found_size_prefix(found: Seq<TargetFile>, i: int, j: int)
    requires
        0 <= i <= j <= found.len(),
    ensures
        found_size(found.subrange(0, i)) <= found_size(found.subrange(0, j)),
    decreases j - i,
{
    if i < j {
        lemma_found_size_prefix(found, i, j - 1);
        assert(found.subrange(0, j).drop_last() =~= found.subrange(0, j - 1));
    }
}

/// Checks the target of a transfer against the manifest of its source, given
/// what was found at the target for each entry, in the manifest's order.
/// Succeeds with no discrepancy; otherwise the message lists every missing
/// and every mismatched file, one per line. An unreadable file is an error.
pub fn verify_against_manifest(manifest: &TransferManifest, found: &Vec<TargetFile>) -> (r: Result<TransferResult, String>)
    requires
        found@.len() == manifest.checksums@.len(),
        found_size(found@) <= u64::MAX,
    ensures
        r is Ok <==> verify_tally(manifest.entries(), found@) is Ok,
        r is Err ==> r->Err_0@ == verify_tally(manifest.entries(), found@)->Err_0,
        r is Ok ==> {
            let t = verify_tally(manifest.entries(), found@)->Ok_0;
            let res = r->Ok_0;
            &&& res.success == tally_clean(t)
            &&& res.message@ == verification_message(t)
            &&& res.transferred_files == t.files
            &&& res.total_size == t.size
        },
{
    let ghost entries = manifest.entries();
    let mut report = String::new();
    let mut n_lines: usize = 0;
    let mut n_missing: usize = 0;
    let mut n_mismatched: usize = 0;
    let mut files: usize = 0;
    let mut size: u64 = 0;
    let mut i: usize = 0;
    while i < found.len()
        invariant
            i <= found@.len() == manifest.checksums@.len() == entries.len(),
            entries == manifest.entries(),
            found_size(found@) <= u64::MAX,
            verify_tally(entries.subrange(0, i as int), found@.subrange(0, i as int)) is Ok,
            ({
                let t = verify_tally(entries.subrange(0, i as int), found@.subrange(0, i as int))->Ok_0;
                &&& report@ == join_lines(t.lines)
                &&& n_lines == t.lines.len()
                &&& n_missing == t.missing.len()
                &&& n_mismatched == t.mismatched.len()
                &&& files == t.files
                &&& size == t.size
                &&& n_lines == n_missing + n_mismatched
                &&& files + n_missing + n_mismatched <= i
            }),
        decreases found@.len() - i,
    {
        let ghost t = verify_tally(entries.subrange(0, i as int), found@.subrange(0, i as int))->Ok_0;
        let entry = &manifest.checksums[i];
        proof {
            assert(entries.subrange(0, i + 1).subrange(0, i as int) =~= entries.subrange(0, i as int));
            assert(found@.subrange(0, i + 1).drop_last() =~= found@.subrange(0, i as int));
            assert(entries.subrange(0, i + 1)[i as int] == entry@);
            assert(found@.subrange(0, i + 1)[i as int] == found@[i as int]);
            lemma_tally_bounds(entries.subrange(0, i + 1), found@.subrange(0, i + 1));
            lemma_found_size_prefix(found@, i + 1, found@.len() as int);
            assert(found@.subrange(0, found@.len() as int) =~= found@);
        }
        let mut line = String::new();
        let mut discrepancy = false;
        match &found[i] {
            TargetFile::Missing => {
                push_text(&mut line, "Missing file: ");
                push_text(&mut line, entry.path.as_str());
                n_missing = n_missing + 1;
                discrepancy = true;
            },
            TargetFile::Unreadable { reason } => {
                let mut e = String::new();
                push_text(&mut e, "Failed to calculate checksum: ");
                push_text(&mut e, reason.as_str());
                proof {
                    assert(e@ =~= unreadable_error(reason@));
                    lemma_tally_err_sticks(entries, found@, i as int + 1);
                    assert(entries.subrange(0, entries.len() as int) =~= entries);
                }
                return Err(e);
            },
            TargetFile::Present { checksum, size: found_len } => {
                if *checksum != entry.checksum {
                    push_text(&mut line, "Checksum mismatch for: ");
                    push_text(&mut line, entry.path.as_str());
                    n_mismatched = n_mismatched + 1;
                    discrepancy = true;
                } else {
                    match found_len {
                        Some(n) => {
                            files = files + 1;
                            size = size + *n;
                        },
                        None => {},
                    }
                }
            },
        }
        if discrepancy {
            if n_lines > 0 {
                push_text(&mut report, "\n");
            }
            push_text(&mut report, line.as_str());
            n_lines = n_lines + 1;
            proof {
                let t2 = verify_tally(entries.subrange(0, i + 1), found@.subrange(0, i + 1))->Ok_0;
                assert(t2.lines.drop_last() == t.lines);
                assert(report@ =~= join_lines(t2.lines));
            }
        }
        i += 1;
    }
    proof {
        assert(entries.subrange(0, i as int) =~= entries);
        assert(found@.subrange(0, i as int) =~= found@);
    }
    let success = n_missing == 0 && n_mismatched == 0;
    let mut message = String::new();
    if success {
        push_text(&mut message, "Successfully verified ");
        push_decimal(&mut message, files as u64);
        push_text(&mut message, " files");
    } else {
        push_text(&mut message, "Transfer verification failed:\n");
        push_text(&mut message, report.as_str());
    }
    proof {
        assert(message@ =~= verification_message(verify_tally(entries, found@)->Ok_0));
    }
    Ok(TransferResult { success, message, transferred_files: files, total_size: size })
}

proof fn lemma_tally_err_sticks(entries: Seq<(Seq<char>, Seq<char>)>, found: Seq<TargetFile>, i: int)
    requires
        0 <= i <= found.len() == entries.len(),
        verify_tally(entries.subrange(0, i), found.subrange(0, i)) is Err,
    ensures
        verify_tally(entries, found) == verify_tally(entries.subrange(0, i), found.subrange(0, i)),
    decreases found.len() - i,
{
    if i == found.len() {
        assert(entries.subrange(0, i) =~= entries);
        assert(found.subrange(0, i) =~= found);
    } else {
        assert(entries.subrange(0, i + 1).subrange(0, i) =~= entries.subrange(0, i));
        assert(found.subrange(0, i + 1).drop_last() =~= found.subrange(0, i));
        lemma_tally_err_sticks(entries, found, i + 1);
    }
}

} // verus!
