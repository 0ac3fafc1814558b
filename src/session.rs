use vstd::prelude::*;
use crate::transfer::{TransferManifest, TransferResult};
use crate::text::push_text;

verus! {

/// One progress report of a transfer.
#[derive(Debug, Clone, PartialEq, Eq)]
pub struct TransferProgress {
    pub status: String,
    pub current_file: Option<String>,
    pub processed_files: usize,
    pub total_files: usize,
    pub processed_size: u64,
    pub total_size: u64,
}

/// The milestones of a transfer that are reported with coarse progress.
#[derive(Debug, Clone, Copy, PartialEq, Eq)]
pub enum TransferStage {
    CalculatingChecksums,
    CreatingArchive,
    TransferringArchive,
    ExtractingArchive,
    Complete,
}

/// The label of a milestone.
pub open spec fn stage_label(stage: TransferStage) -> Seq<char> {
    match stage {
        TransferStage::CalculatingChecksums => "Calculating checksums..."@,
        TransferStage::CreatingArchive => "Creating archive..."@,
        TransferStage::TransferringArchive => "Transferring archive..."@,
        TransferStage::ExtractingArchive => "Extracting archive..."@,
        TransferStage::Complete => "Transfer complete"@,
    }
}

/// The share of the totals that a milestone reports as done: none before the
/// archive moves, half while it moves, three quarters (rounded down) while it
/// is extracted, all at the end.
pub open spec fn stage_share(stage: TransferStage, total: nat) -> nat {
    match stage {
        TransferStage::CalculatingChecksums => 0,
        TransferStage::CreatingArchive => 0,
        TransferStage::TransferringArchive => total / 2,
        TransferStage::ExtractingArchive => (3 * total) / 4,
        TransferStage::Complete => total,
    }
}

/// Whether `p` is the report of `stage` for a transfer of `files` files and
/// `size` bytes. Checksums are computed before the totals are known, so that
/// milestone reports zero totals.
pub open spec fn is_stage_progress(p: TransferProgress, stage: TransferStage, files: nat, size: nat) -> bool {
    let (tf, ts) = if stage == TransferStage::CalculatingChecksums {
        (0nat, 0nat)
    } else {
        (files, size)
    };
    &&& p.status@ == stage_label(stage)
    &&& p.current_file is None
    &&& p.total_files == tf
    &&& p.total_size == ts
    &&& p.processed_files == stage_share(stage, tf)
    &&& p.processed_size == stage_share(stage, ts)
}

proof fn lemma_three_quarters(t: nat)
    ensures
        (t / 4) * 3 + ((t % 4) * 3) / 4 == (3 * t) / 4,
        (t / 4) * 3 + ((t % 4) * 3) / 4 <= t,
{
    let q = t / 4;
    let r = t % 4;
    assert(t == 4 * q + r) by (nonlinear_arith)
        requires
            q == t / 4,
            r == t % 4,
    ;
    assert(3 * t == 4 * (3 * q) + 3 * r) by (nonlinear_arith)
        requires
            t == 4 * q + r,
    ;
    assert((4 * (3 * q) + 3 * r) / 4 == 3 * q + (3 * r) / 4) by (nonlinear_arith)
        requires
            0 <= r < 4,
            q >= 0,
    ;
}

fn three_quarters_usize(t: usize) -> (r: usize)
    ensures
        r == (3 * t as nat) / 4,
{
    proof {
        lemma_three_quarters(t as nat);
    }
    (t / 4) * 3 + ((t % 4) * 3) / 4
}

fn three_quarters_u64(t: u64) -> (r: u64)
    ensures
        r == (3 * t as nat) / 4,
{
    proof {
        lemma_three_quarters(t as nat);
    }
    (t / 4) * 3 + ((t % 4) * 3) / 4
}

/// The progress report of a milestone, for a transfer of `total_files` files
/// and `total_size` bytes.
pub fn stage_progress(stage: TransferStage, total_files: usize, total_size: u64) -> (p: TransferProgress)
    ensures
        is_stage_progress(p, stage, total_files as nat, total_size as nat),
{
    match stage {
        TransferStage::CalculatingChecksums => TransferProgress {
            status: String::from_str("Calculating checksums..."),
            current_file: None,
            processed_files: 0,
            total_files: 0,
            processed_size: 0,
            total_size: 0,
        },
        TransferStage::CreatingArchive => TransferProgress {
            status: String::from_str("Creating archive..."),
            current_file: None,
            processed_files: 0,
            total_files,
            processed_size: 0,
            total_size,
        },
        TransferStage::TransferringArchive => TransferProgress {
            status: String::from_str("Transferring archive..."),
            current_file: None,
            processed_files: total_files / 2,
            total_files,
            processed_size: total_size / 2,
            total_size,
        },
        TransferStage::ExtractingArchive => TransferProgress {
            status: String::from_str("Extracting archive..."),
            current_file: None,
            processed_files: three_quarters_usize(total_files),
            total_files,
            processed_size: three_quarters_u64(total_size),
            total_size,
        },
        TransferStage::Complete => TransferProgress {
            status: String::from_str("Transfer complete"),
            current_file: None,
            processed_files: total_files,
            total_files,
            processed_size: total_size,
            total_size,
        },
    }
}

/// The bookkeeping of a direct copy, file by file: how many files and bytes
/// have been copied and how many files failed, against the totals of the
/// source when they are known.
#[derive(Debug, Clone, Copy, PartialEq, Eq)]
pub struct DirectCopy {
    pub copied_files: usize,
    pub copied_size: u64,
    pub failed_files: usize,
    pub total_files: usize,
    pub total_size: u64,
}

/// What a direct copy did: the files and bytes copied, and the files that
/// could not be copied.
#[derive(Debug, Clone, Copy, PartialEq, Eq)]
pub struct CopySummary {
    pub copied_files: usize,
    pub copied_size: u64,
    pub failed_files: usize,
}

impl DirectCopy {
    /// A copy that has not copied anything yet.
    pub fn new(total_files: usize, total_size: u64) -> (d: DirectCopy)
        ensures
            d.copied_files == 0,
            d.copied_size == 0,
            d.failed_files == 0,
            d.total_files == total_files,
            d.total_size == total_size,
    {
        DirectCopy { copied_files: 0, copied_size: 0, failed_files: 0, total_files, total_size }
    }

    /// The report made before the file at `relative` is copied: it names the
    /// file and counts only what was copied before it.
    pub fn progress(&self, relative: &str) -> (p: TransferProgress)
        ensures
            p.status@ == "Copying files..."@,
            p.current_file is Some,
            p.current_file->0@ == relative@,
            p.processed_files == self.copied_files,
            p.total_files == self.total_files,
            p.processed_size == self.copied_size,
            p.total_size == self.total_size,
    {
        TransferProgress {
            status: String::from_str("Copying files..."),
            current_file: Some(String::from_str(relative)),
            processed_files: self.copied_files,
            total_files: self.total_files,
            processed_size: self.copied_size,
            total_size: self.total_size,
        }
    }

    /// Whether the outcome of one more file can be counted: a copy of `size`
    /// bytes when `copied` is `Some(size)`, a failure when it is `None`.
    pub open spec fn can_record(&self, copied: Option<u64>) -> bool {
        match copied {
            Some(size) => self.copied_files < usize::MAX && self.copied_size + size <= u64::MAX,
            None => self.failed_files < usize::MAX,
        }
    }

    /// Whether the outcome of one more file can be counted, as `can_record`
    /// says.
    pub fn can_count(&self, copied: Option<u64>) -> (r: bool)
        ensures
            r == self.can_record(copied),
    {
        match copied {
            Some(size) => self.copied_files < usize::MAX && size <= u64::MAX - self.copied_size,
            None => self.failed_files < usize::MAX,
        }
    }

    /// Records the outcome of copying one file: `Some(size)` when it was
    /// copied, `None` when it failed.
    pub fn record(&mut self, copied: Option<u64>)
        requires
            old(self).can_record(copied),
        ensures
            final(self).total_files == old(self).total_files,
            final(self).total_size == old(self).total_size,
            copied is None ==> final(self).copied_files == old(self).copied_files
                && final(self).copied_size == old(self).copied_size
                && final(self).failed_files == old(self).failed_files + 1,
            copied is Some ==> final(self).copied_files == old(self).copied_files + 1
                && final(self).copied_size == old(self).copied_size + copied->0
                && final(self).failed_files == old(self).failed_files,
    {
        match copied {
            Some(n) => {
                self.copied_files = self.copied_files + 1;
                self.copied_size = self.copied_size + n;
            },
            None => {
                self.failed_files = self.failed_files + 1;
            },
        }
    }

    /// The end of the copy: what it did, or an error when no file at all was
    /// copied.
    pub fn finish(&self) -> (r: Result<CopySummary, String>)
        ensures
            r is Err <==> self.copied_files == 0,
            r is Err ==> r->Err_0@ == "No files were copied"@,
            r is Ok ==> r->Ok_0 == (CopySummary {
                copied_files: self.copied_files,
                copied_size: self.copied_size,
                failed_files: self.failed_files,
            }),
    {
        if self.copied_files == 0 {
            Err(String::from_str("No files were copied"))
        } else {
            Ok(
                CopySummary {
                    copied_files: self.copied_files,
                    copied_size: self.copied_size,
                    failed_files: self.failed_files,
                },
            )
        }
    }
}

/// What a transfer is asked to do: from where to where, whether to move the
/// tree as one archive, and whether to verify the target afterwards.
#[derive(Debug, Clone, PartialEq, Eq)]
pub struct TransferOptions {
    pub source_path: String,
    pub target_path: String,
    pub create_archive: bool,
    pub verify_transfer: bool,
}

/// Where a transfer stands.
#[derive(Debug, Clone, Copy, PartialEq, Eq)]
pub enum TransferPhase {
    Idle,
    CapturingManifest,
    CreatingArchive,
    CopyingArchive,
    ExtractingArchive,
    CopyingFiles,
    Verifying,
    Done,
}

/// The work that the caller does next, and reports on with an event.
#[derive(Debug, PartialEq, Eq)]
pub enum TransferAction {
    /// Build the manifest of the source.
    CaptureManifest,
    /// Write the source tree into an archive.
    CreateArchive,
    /// Copy the archive to the target.
    CopyArchive,
    /// Expand the archive at the target, then remove the archive copies.
    ExtractArchive,
    /// Copy the files one by one, keeping their relative paths.
    CopyFiles,
    /// Check the target against the captured manifest.
    Verify,
    /// The transfer is over, with this outcome.
    Finish(Result<TransferResult, String>),
}

/// What the caller reports after doing the work it was asked for. An error
/// carries the text of the failure.
#[derive(Debug, PartialEq, Eq)]
pub enum TransferEvent {
    Started,
    ManifestCaptured(Result<TransferManifest, String>),
    ArchiveCreated(Result<(), String>),
    ArchiveCopied(Result<(), String>),
    ArchiveExtracted(Result<(), String>),
    FilesCopied(Result<CopySummary, String>),
    Verified(Result<TransferResult, String>),
}

/// The decisions of one transfer: capture the manifest when verification is
/// asked for, then move the files by archive or one by one, then verify.
#[derive(Debug, Clone, PartialEq, Eq)]
pub struct TransferSession {
    pub create_archive: bool,
    pub verify: bool,
    pub phase: TransferPhase,
    pub manifest: Option<TransferManifest>,
}

/// The file count and total size that a transfer reports: those of the
/// manifest, or zero without one.
pub open spec fn manifest_totals(m: Option<TransferManifest>) -> (nat, nat) {
    match m {
        Some(m) => (m.file_count as nat, m.total_size as nat),
        None => (0, 0),
    }
}

/// Whether `e` is the event that answers the work of phase `phase`.
pub open spec fn answers(phase: TransferPhase, e: TransferEvent) -> bool {
    match phase {
        TransferPhase::Idle => e is Started,
        TransferPhase::CapturingManifest => e is ManifestCaptured,
        TransferPhase::CreatingArchive => e is ArchiveCreated,
        TransferPhase::CopyingArchive => e is ArchiveCopied,
        TransferPhase::ExtractingArchive => e is ArchiveExtracted,
        TransferPhase::CopyingFiles => e is FilesCopied,
        TransferPhase::Verifying => e is Verified,
        TransferPhase::Done => false,
    }
}

/// Whether the action ends the transfer with the error `msg`.
pub open spec fn fails_with(a: TransferAction, msg: Seq<char>) -> bool {
    a is Finish && a->Finish_0 is Err && a->Finish_0->Err_0@ == msg
}

/// The start of the move: the archive path reports its first milestone; the
/// direct copy reports per file.
pub open spec fn begins_transport(
    s: TransferSession,
    t: TransferSession,
    p: Option<TransferProgress>,
    a: TransferAction,
) -> bool {
    let (files, size) = manifest_totals(s.manifest);
    &&& t.manifest == s.manifest
    &&& if s.create_archive {
        &&& t.phase == TransferPhase::CreatingArchive
        &&& p is Some && is_stage_progress(p->0, TransferStage::CreatingArchive, files, size)
        &&& a is CreateArchive
    } else {
        &&& t.phase == TransferPhase::CopyingFiles
        &&& p is None
        &&& a is CopyFiles
    }
}

/// The end of the move: report completion with the manifest's totals, then
/// verify when asked to, or finish reporting `moved_files` files of
/// `moved_size` bytes.
pub open spec fn ends_transport(
    s: TransferSession,
    t: TransferSession,
    p: Option<TransferProgress>,
    a: TransferAction,
    moved_files: nat,
    moved_size: nat,
) -> bool {
    let (files, size) = manifest_totals(s.manifest);
    &&& t.manifest == s.manifest
    &&& p is Some && is_stage_progress(p->0, TransferStage::Complete, files, size)
    &&& if s.verify && s.manifest is Some {
        &&& t.phase == TransferPhase::Verifying
        &&& a is Verify
    } else {
        &&& t.phase == TransferPhase::Done
        &&& a is Finish && a->Finish_0 is Ok
        &&& ({
            let r = a->Finish_0->Ok_0;
            &&& r.success
            &&& r.message@ == "Transfer completed successfully"@
            &&& r.transferred_files == moved_files
            &&& r.total_size == moved_size
        })
    }
}

/// Whether the session ends with the error `msg`.
pub open spec fn stops(s: TransferSession, t: TransferSession, p: Option<TransferProgress>, a: TransferAction, msg: Seq<char>) -> bool {
    &&& t.phase == TransferPhase::Done
    &&& t.manifest == s.manifest
    &&& p is None
    &&& fails_with(a, msg)
}

/// One step of a transfer: from session `s` and event `e` to session `t`, an
/// optional progress report `p` and the next action `a`.
pub open spec fn transfer_step(
    s: TransferSession,
    e: TransferEvent,
    t: TransferSession,
    p: Option<TransferProgress>,
    a: TransferAction,
) -> bool {
    &&& t.create_archive == s.create_archive
    &&& t.verify == s.verify
    &&& match e {
        TransferEvent::Started => if s.verify {
            &&& t.phase == TransferPhase::CapturingManifest
            &&& t.manifest == s.manifest
            &&& p is Some && is_stage_progress(p->0, TransferStage::CalculatingChecksums, 0, 0)
            &&& a is CaptureManifest
        } else {
            begins_transport(s, t, p, a)
        },
        TransferEvent::ManifestCaptured(r) => match r {
            Ok(m) => begins_transport(TransferSession { manifest: Some(m), ..s }, t, p, a),
            Err(msg) => stops(s, t, p, a, msg@),
        },
        TransferEvent::ArchiveCreated(r) => match r {
            Ok(_) => {
                let (files, size) = manifest_totals(s.manifest);
                &&& t.phase == TransferPhase::CopyingArchive
                &&& t.manifest == s.manifest
                &&& p is Some && is_stage_progress(p->0, TransferStage::TransferringArchive, files, size)
                &&& a is CopyArchive
            },
            Err(msg) => stops(s, t, p, a, "Failed to create archive: "@ + msg@),
        },
        TransferEvent::ArchiveCopied(r) => match r {
            Ok(_) => {
                let (files, size) = manifest_totals(s.manifest);
                &&& t.phase == TransferPhase::ExtractingArchive
                &&& t.manifest == s.manifest
                &&& p is Some && is_stage_progress(p->0, TransferStage::ExtractingArchive, files, size)
                &&& a is ExtractArchive
            },
            Err(msg) => stops(s, t, p, a, "Failed to transfer archive: "@ + msg@),
        },
        TransferEvent::ArchiveExtracted(r) => match r {
            Ok(_) => ends_transport(s, t, p, a, manifest_totals(s.manifest).0, manifest_totals(s.manifest).1),
            Err(msg) => stops(s, t, p, a, "Failed to extract archive: "@ + msg@),
        },
        TransferEvent::FilesCopied(r) => match r {
            Ok(c) => ends_transport(s, t, p, a, c.copied_files as nat, c.copied_size as nat),
            Err(msg) => stops(s, t, p, a, msg@),
        },
        TransferEvent::Verified(r) => match r {
            Ok(v) => {
                let (files, size) = manifest_totals(s.manifest);
                &&& t.phase == TransferPhase::Done
                &&& t.manifest == s.manifest
                &&& p is None
                &&& a is Finish && a->Finish_0 is Ok
                &&& ({
                    let out = a->Finish_0->Ok_0;
                    &&& out.success == v.success
                    &&& out.message@ == v.message@
                    &&& out.transferred_files == if v.transferred_files == 0 { files } else { v.transferred_files as nat }
                    &&& out.total_size == if v.transferred_files == 0 { size } else { v.total_size as nat }
                })
            },
            Err(msg) => stops(s, t, p, a, msg@),
        },
    }
}

fn with_prefix(prefix: &str, msg: String) -> (r: String)
    ensures
        r@ == prefix@ + msg@,
{
    let mut r = String::from_str(prefix);
    push_text(&mut r, msg.as_str());
    r
}

impl TransferSession {
    /// A transfer that has not started.
    pub fn new(options: &TransferOptions) -> (s: TransferSession)
        ensures
            s.create_archive == options.create_archive,
            s.verify == options.verify_transfer,
            s.phase == TransferPhase::Idle,
            s.manifest is None,
    {
        TransferSession {
            create_archive: options.create_archive,
            verify: options.verify_transfer,
            phase: TransferPhase::Idle,
            manifest: None,
        }
    }

    /// Whether `e` answers the work that the session is waiting for.
    pub fn expects(&self, e: &TransferEvent) -> (r: bool)
        ensures
            r == answers(self.phase, *e),
    {
        match self.phase {
            TransferPhase::Idle => matches!(e, TransferEvent::Started),
            TransferPhase::CapturingManifest => matches!(e, TransferEvent::ManifestCaptured(_)),
            TransferPhase::CreatingArchive => matches!(e, TransferEvent::ArchiveCreated(_)),
            TransferPhase::CopyingArchive => matches!(e, TransferEvent::ArchiveCopied(_)),
            TransferPhase::ExtractingArchive => matches!(e, TransferEvent::ArchiveExtracted(_)),
            TransferPhase::CopyingFiles => matches!(e, TransferEvent::FilesCopied(_)),
            TransferPhase::Verifying => matches!(e, TransferEvent::Verified(_)),
            TransferPhase::Done => false,
        }
    }

    /// The file count and total size of the captured manifest, or zero.
    pub fn totals(&self) -> (r: (usize, u64))
        ensures
            r.0 == manifest_totals(self.manifest).0,
            r.1 == manifest_totals(self.manifest).1,
    {
        match &self.manifest {
            Some(m) => (m.file_count, m.total_size),
            None => (0, 0),
        }
    }

    fn begin_transport(&mut self) -> (r: (Option<TransferProgress>, TransferAction))
        ensures
            final(self).create_archive == old(self).create_archive,
            final(self).verify == old(self).verify,
            begins_transport(*old(self), *final(self), r.0, r.1),
    {
        if self.create_archive {
            let (files, size) = self.totals();
            self.phase = TransferPhase::CreatingArchive;
            (Some(stage_progress(TransferStage::CreatingArchive, files, size)), TransferAction::CreateArchive)
        } else {
            self.phase = TransferPhase::CopyingFiles;
            (None, TransferAction::CopyFiles)
        }
    }

    fn end_transport(&mut self, moved_files: usize, moved_size: u64) -> (r: (Option<TransferProgress>, TransferAction))
        ensures
            final(self).create_archive == old(self).create_archive,
            final(self).verify == old(self).verify,
            ends_transport(*old(self), *final(self), r.0, r.1, moved_files as nat, moved_size as nat),
    {
        let (files, size) = self.totals();
        let p = stage_progress(TransferStage::Complete, files, size);
        if self.verify && self.manifest.is_some() {
            self.phase = TransferPhase::Verifying;
            (Some(p), TransferAction::Verify)
        } else {
            self.phase = TransferPhase::Done;
            let r = TransferResult {
                success: true,
                message: String::from_str("Transfer completed successfully"),
                transferred_files: moved_files,
                total_size: moved_size,
            };
            (Some(p), TransferAction::Finish(Ok(r)))
        }
    }

    fn stop(&mut self, msg: String) -> (r: (Option<TransferProgress>, TransferAction))
        ensures
            final(self).create_archive == old(self).create_archive,
            final(self).verify == old(self).verify,
            stops(*old(self), *final(self), r.0, r.1, msg@),
    {
        self.phase = TransferPhase::Done;
        (None, TransferAction::Finish(Err(msg)))
    }

    /// Takes the report of the last piece of work, and returns the progress
    /// report to send, if any, and the next piece of work.
    pub fn step(&mut self, e: TransferEvent) -> (r: (Option<TransferProgress>, TransferAction))
        requires
            answers(old(self).phase, e),
        ensures
            transfer_step(*old(self), e, *final(self), r.0, r.1),
    {
        match e {
            TransferEvent::Started => {
                if self.verify {
                    self.phase = TransferPhase::CapturingManifest;
                    (Some(stage_progress(TransferStage::CalculatingChecksums, 0, 0)), TransferAction::CaptureManifest)
                } else {
                    self.begin_transport()
                }
            },
            TransferEvent::ManifestCaptured(r) => match r {
                Ok(m) => {
                    self.manifest = Some(m);
                    self.begin_transport()
                },
                Err(msg) => self.stop(msg),
            },
            TransferEvent::ArchiveCreated(r) => match r {
                Ok(_) => {
                    let (files, size) = self.totals();
                    self.phase = TransferPhase::CopyingArchive;
                    (Some(stage_progress(TransferStage::TransferringArchive, files, size)), TransferAction::CopyArchive)
                },
                Err(msg) => self.stop(with_prefix("Failed to create archive: ", msg)),
            },
            TransferEvent::ArchiveCopied(r) => match r {
                Ok(_) => {
                    let (files, size) = self.totals();
                    self.phase = TransferPhase::ExtractingArchive;
                    (Some(stage_progress(TransferStage::ExtractingArchive, files, size)), TransferAction::ExtractArchive)
                },
                Err(msg) => self.stop(with_prefix("Failed to transfer archive: ", msg)),
            },
            TransferEvent::ArchiveExtracted(r) => match r {
                Ok(_) => {
                    let (files, size) = self.totals();
                    self.end_transport(files, size)
                },
                Err(msg) => self.stop(with_prefix("Failed to extract archive: ", msg)),
            },
            TransferEvent::FilesCopied(r) => match r {
                Ok(c) => self.end_transport(c.copied_files, c.copied_size),
                Err(msg) => self.stop(msg),
            },
            TransferEvent::Verified(r) => match r {
                Ok(v) => {
                    let (files, size) = self.totals();
                    self.phase = TransferPhase::Done;
                    let out = if v.transferred_files == 0 {
                        TransferResult { success: v.success, message: v.message, transferred_files: files, total_size: size }
                    } else {
                        v
                    };
                    (None, TransferAction::Finish(Ok(out)))
                },
                Err(msg) => self.stop(msg),
            },
        }
    }
}

} // verus!
