//! The decisions of a two-phase scan.
//!
//! Walking the tree, reading and writing the store and running the prober
//! happen outside the library. Each step hands its outcome here: a
//! [`ScanState`] decides what to do with every walked entry, which files to
//! probe, and how each probe outcome is stored, and it keeps the counts.

use crate::metadata::{opt_text, MediaMetadata, MetadataError};
use crate::text::{starts_with_text, text_equals};
use vstd::prelude::*;

verus! {

/// Counts of one full scan.
#[derive(Debug, Clone, Copy)]
pub struct IndexStats {
    pub files_scanned: u64,
    pub files_indexed: u64,
    pub files_updated: u64,
    pub files_removed: u64,
    pub files_skipped: u64,
    pub errors: u64,
}

/// Whether a record's media attributes are final.
#[derive(PartialEq, Eq, Structural, Clone, Copy, Debug)]
pub enum MetadataStatus {
    /// A file waiting for (or failing) its probe; probed again on the next scan.
    Pending,
    /// A directory, a probed file, or a file known not to be media.
    Complete,
}

/// What the walker saw of one entry.
#[derive(Debug, Clone)]
pub struct EntryAttrs {
    pub is_file: bool,
    /// The size in bytes, for a file.
    pub size: Option<i64>,
    /// The modification time, as stored.
    pub modified_at: Option<String>,
}

/// What the store holds of one path from an earlier scan.
#[derive(Debug, Clone)]
pub struct StoredAttrs {
    pub size: Option<i64>,
    pub modified_at: Option<String>,
    pub status: MetadataStatus,
}

/// What to do with a walked entry.
#[derive(PartialEq, Eq, Structural, Clone, Copy, Debug)]
pub enum EntryAction {
    /// Unchanged since it was stored: write nothing; probe it again where its
    /// media attributes are still pending.
    Skip { probe: bool },
    /// New or changed: write its record, media attributes cleared and with
    /// the given status, and probe it afterwards where `probe` says so.
    Write { status: MetadataStatus, probe: bool },
}

/// A file queued for the second phase.
#[derive(Debug, Clone)]
pub struct PendingProbe {
    /// The root-relative path of the file.
    pub path: String,
    /// The MIME type guessed from its name.
    pub mime_type: Option<String>,
}

/// The media attributes to store for a probed file.
#[derive(Debug, Clone)]
pub struct MediaUpdate {
    pub width: Option<u32>,
    pub height: Option<u32>,
    pub duration: Option<String>,
    pub status: MetadataStatus,
}

/// The running state of one scan: its counts, the paths seen so far, and the
/// files queued for probing.
pub struct ScanState {
    pub stats: IndexStats,
    pub observed: Vec<String>,
    pub pending: Vec<PendingProbe>,
}

/// Whether a full scan is in progress.
pub struct RunFlag {
    running: bool,
}

/// All counts zero.
pub open spec fn zero_stats(s: IndexStats) -> bool {
    &&& s.files_scanned == 0
    &&& s.files_indexed == 0
    &&& s.files_updated == 0
    &&& s.files_removed == 0
    &&& s.files_skipped == 0
    &&& s.errors == 0
}

/// A count plus one, held at the largest value.
pub open spec fn bump(x: u64) -> u64 {
    if x < u64::MAX {
        (x + 1) as u64
    } else {
        x
    }
}

/// The stored size and modification time are those the walker saw.
pub open spec fn unchanged(e: EntryAttrs, stored: StoredAttrs) -> bool {
    stored.size == e.size && opt_text(stored.modified_at) == opt_text(e.modified_at)
}

/// The change-detection rule of the first phase.
pub open spec fn entry_action(e: EntryAttrs, stored: Option<StoredAttrs>) -> EntryAction {
    match stored {
        Some(s) if unchanged(e, s) => EntryAction::Skip {
            probe: e.is_file && s.status != MetadataStatus::Complete,
        },
        _ => EntryAction::Write {
            status: if e.is_file {
                MetadataStatus::Pending
            } else {
                MetadataStatus::Complete
            },
            probe: e.is_file,
        },
    }
}

/// The counts after one walked entry is planned.
pub open spec fn stats_after_plan(s: IndexStats, a: EntryAction) -> IndexStats {
    IndexStats {
        files_scanned: bump(s.files_scanned),
        files_skipped: if a is Skip {
            bump(s.files_skipped)
        } else {
            s.files_skipped
        },
        ..s
    }
}

/// A probe outcome that settles a file's media attributes for good.
pub open spec fn settles(outcome: Result<MediaMetadata, MetadataError>) -> bool {
    match outcome {
        Ok(_) => true,
        Err(MetadataError::NotMediaFile) => true,
        Err(_) => false,
    }
}

/// The attributes stored after a probe that settles a file: Complete, with
/// the probed width, height and duration (an image keeps no duration), or
/// with all of them cleared for a file that is not media.
pub open spec fn update_for(u: MediaUpdate, outcome: Result<MediaMetadata, MetadataError>, is_image: bool) -> bool {
    &&& u.status == MetadataStatus::Complete
    &&& match outcome {
        Ok(m) => u.width == m.width && u.height == m.height && opt_text(u.duration) == (if is_image {
            None
        } else {
            opt_text(m.duration)
        }),
        Err(_) => u.width is None && u.height is None && u.duration is None,
    }
}

/// A MIME type of an image.
pub open spec fn is_image_mime(m: Option<Seq<char>>) -> bool {
    match m {
        Some(t) => t.len() >= 6 && t.subrange(0, 6) == "image/"@,
        None => false,
    }
}

impl IndexStats {
    /// All counts zero.
    pub fn new() -> (r: Self)
        ensures
            zero_stats(r),
    {
        IndexStats {
            files_scanned: 0,
            files_indexed: 0,
            files_updated: 0,
            files_removed: 0,
            files_skipped: 0,
            errors: 0,
        }
    }
}

impl Default for IndexStats {
    fn default() -> (r: Self)
        ensures
            zero_stats(r),
    {
        Self::new()
    }
}

/// One more, held at the largest value.
fn bumped(x: u64) -> (r: u64)
    ensures
        r == bump(x),
{
    if x < u64::MAX {
        x + 1
    } else {
        x
    }
}

impl MetadataStatus {
    /// The status as the store writes it.
    pub fn as_str(&self) -> (r: &'static str)
        ensures
            r@ == (match self {
                MetadataStatus::Pending => "pending"@,
                MetadataStatus::Complete => "complete"@,
            }),
    {
        match self {
            MetadataStatus::Pending => "pending",
            MetadataStatus::Complete => "complete",
        }
    }

    /// The status the store wrote: only `complete` is final; anything else
    /// is probed again.
    pub fn from_text(s: &str) -> (r: Self)
        ensures
            r == (if s@ == "complete"@ {
                MetadataStatus::Complete
            } else {
                MetadataStatus::Pending
            }),
    {
        if text_equals(s, "complete") {
            MetadataStatus::Complete
        } else {
            MetadataStatus::Pending
        }
    }
}

/// Whether two optional texts are equal.
fn same_text(a: &Option<String>, b: &Option<String>) -> (r: bool)
    ensures
        r == (opt_text(*a) == opt_text(*b)),
{
    match (a, b) {
        (Some(x), Some(y)) => text_equals(x.as_str(), y.as_str()),
        (None, None) => true,
        _ => false,
    }
}

/// Applies the change-detection rule to a walked entry and what the store
/// holds of its path.
pub fn plan_entry(entry: &EntryAttrs, stored: &Option<StoredAttrs>) -> (r: EntryAction)
    ensures
        r == entry_action(*entry, *stored),
{
    match stored {
        Some(s) => {
            if s.size == entry.size && same_text(&s.modified_at, &entry.modified_at) {
                return EntryAction::Skip {
                    probe: entry.is_file && s.status != MetadataStatus::Complete,
                };
            }
        },
        None => {},
    }
    EntryAction::Write {
        status: if entry.is_file {
            MetadataStatus::Pending
        } else {
            MetadataStatus::Complete
        },
        probe: entry.is_file,
    }
}

/// Whether a MIME type is that of an image.
pub fn is_image_type(mime_type: &Option<String>) -> (r: bool)
    ensures
        r == is_image_mime(opt_text(*mime_type)),
{
    match mime_type {
        Some(t) => {
            proof {
                reveal_strlit("image/");
            }
            starts_with_text(t.as_str(), "image/")
        },
        None => false,
    }
}

/// What to store after probing a file: the probed attributes with status
/// Complete (an image keeps no duration); cleared attributes with status
/// Complete for a file that is not media; nothing after any other failure,
/// so the file stays Pending and is probed again on the next scan.
pub fn media_update(outcome: &Result<MediaMetadata, MetadataError>, is_image: bool) -> (r: Option<
    MediaUpdate,
>)
    ensures
        r is Some <==> settles(*outcome),
        r matches Some(u) ==> update_for(u, *outcome, is_image),
{
    match outcome {
        Ok(m) => {
            let duration = if is_image {
                None
            } else {
                match &m.duration {
                    Some(d) => Some(d.clone()),
                    None => None,
                }
            };
            Some(
                MediaUpdate {
                    width: m.width,
                    height: m.height,
                    duration,
                    status: MetadataStatus::Complete,
                },
            )
        },
        Err(MetadataError::NotMediaFile) => Some(
            MediaUpdate { width: None, height: None, duration: None, status: MetadataStatus::Complete },
        ),
        Err(_) => None,
    }
}

/// The texts of a sequence of strings.
pub open spec fn texts(v: Seq<String>) -> Seq<Seq<char>> {
    v.map_values(|p: String| p@)
}

/// The (path, MIME type) texts of a probe queue.
pub open spec fn queue_view(v: Seq<PendingProbe>) -> Seq<(Seq<char>, Option<Seq<char>>)> {
    v.map_values(|p: PendingProbe| (p.path@, opt_text(p.mime_type)))
}

impl ScanState {
    /// A scan that has seen nothing yet.
    pub fn new() -> (r: Self)
        ensures
            zero_stats(r.stats),
            r.observed@.len() == 0,
            r.pending@.len() == 0,
    {
        ScanState { stats: IndexStats::new(), observed: Vec::new(), pending: Vec::new() }
    }

    /// Counts an error that skips one entry or file and lets the scan go on.
    pub fn record_error(&mut self)
        ensures
            final(self).stats == (IndexStats { errors: bump(old(self).stats.errors), ..old(self).stats }),
            final(self).observed == old(self).observed,
            final(self).pending == old(self).pending,
    {
        self.stats.errors = bumped(self.stats.errors);
    }

    /// Counts an entry at root-relative `path` that was walked but whose
    /// attributes could not be read: an error, yet still present, so its
    /// stored record is kept.
    pub fn record_unreadable(&mut self, path: String)
        ensures
            final(self).stats == (IndexStats {
                files_scanned: bump(old(self).stats.files_scanned),
                errors: bump(old(self).stats.errors),
                ..old(self).stats
            }),
            texts(final(self).observed@) == texts(old(self).observed@).push(path@),
            final(self).pending == old(self).pending,
    {
        self.stats.files_scanned = bumped(self.stats.files_scanned);
        self.stats.errors = bumped(self.stats.errors);
        let ghost before = self.observed@;
        self.observed.push(path);
        assert(texts(self.observed@) =~= texts(before).push(path@));
    }

    /// Adds a path to those seen, and to the probe queue where `probe` says so.
    fn note_present(&mut self, path: String, mime_type: Option<String>, probe: bool)
        ensures
            final(self).stats == old(self).stats,
            texts(final(self).observed@) == texts(old(self).observed@).push(path@),
            queue_view(final(self).pending@) == if probe {
                queue_view(old(self).pending@).push((path@, opt_text(mime_type)))
            } else {
                queue_view(old(self).pending@)
            },
    {
        let ghost old_observed = self.observed@;
        let ghost old_pending = self.pending@;
        if probe {
            let copy = path.clone();
            self.observed.push(copy);
            self.pending.push(PendingProbe { path, mime_type });
            assert(queue_view(self.pending@) =~= queue_view(old_pending).push(
                (path@, opt_text(mime_type)),
            ));
        } else {
            self.observed.push(path);
            assert(queue_view(self.pending@) =~= queue_view(old_pending));
        }
        assert(texts(self.observed@) =~= texts(old_observed).push(path@));
    }

    /// Plans a walked entry at root-relative `path`: counts it as scanned and
    /// decides, from what the store holds of the path, whether to write it.
    /// A skipped entry counts as skipped and as still present, and is queued
    /// for probing where its media attributes are pending.
    pub fn plan(
        &mut self,
        path: String,
        entry: &EntryAttrs,
        mime_type: Option<String>,
        stored: &Option<StoredAttrs>,
    ) -> (r: EntryAction)
        ensures
            r == entry_action(*entry, *stored),
            final(self).stats == stats_after_plan(old(self).stats, r),
            r is Write ==> final(self).observed == old(self).observed && final(self).pending
                == old(self).pending,
            r is Skip ==> texts(final(self).observed@) == texts(old(self).observed@).push(path@),
            r matches EntryAction::Skip { probe } ==> queue_view(final(self).pending@) == if probe {
                queue_view(old(self).pending@).push((path@, opt_text(mime_type)))
            } else {
                queue_view(old(self).pending@)
            },
    {
        let action = plan_entry(entry, stored);
        self.stats.files_scanned = bumped(self.stats.files_scanned);
        match action {
            EntryAction::Skip { probe } => {
                self.stats.files_skipped = bumped(self.stats.files_skipped);
                self.note_present(path, mime_type, probe);
            },
            EntryAction::Write { .. } => {},
        }
        action
    }

    /// Records the outcome of writing a planned entry. Either way the entry
    /// is still present, so its stored record is kept. A written entry counts
    /// as indexed, and a written file is queued for probing; a failed write
    /// counts as an error.
    pub fn record_write(&mut self, path: String, is_file: bool, mime_type: Option<String>, written: bool)
        ensures
            written ==> final(self).stats == (IndexStats {
                files_indexed: bump(old(self).stats.files_indexed),
                ..old(self).stats
            }),
            texts(final(self).observed@) == texts(old(self).observed@).push(path@),
            written ==> queue_view(final(self).pending@) == if is_file {
                queue_view(old(self).pending@).push((path@, opt_text(mime_type)))
            } else {
                queue_view(old(self).pending@)
            },
            !written ==> final(self).stats == (IndexStats {
                errors: bump(old(self).stats.errors),
                ..old(self).stats
            }),
            !written ==> final(self).pending == old(self).pending,
    {
        if written {
            self.stats.files_indexed = bumped(self.stats.files_indexed);
            self.note_present(path, mime_type, is_file);
        } else {
            self.stats.errors = bumped(self.stats.errors);
            let ghost before = self.observed@;
            self.observed.push(path);
            assert(texts(self.observed@) =~= texts(before).push(path@));
        }
    }

    /// Takes the outcome of probing a queued file: what to store for it, as
    /// `media_update` decides; an outcome that settles nothing counts as an
    /// error, and the file stays Pending for the next scan.
    pub fn record_probe(&mut self, outcome: &Result<MediaMetadata, MetadataError>, is_image: bool) -> (r: Option<MediaUpdate>)
        ensures
            r is Some <==> settles(*outcome),
            r matches Some(u) ==> update_for(u, *outcome, is_image),
            settles(*outcome) ==> final(self).stats == old(self).stats,
            !settles(*outcome) ==> final(self).stats == (IndexStats {
                errors: bump(old(self).stats.errors),
                ..old(self).stats
            }),
            final(self).observed == old(self).observed,
            final(self).pending == old(self).pending,
    {
        let update = media_update(outcome, is_image);
        if update.is_none() {
            self.stats.errors = bumped(self.stats.errors);
        }
        update
    }

    /// Records the removal of the stored paths that this scan did not see:
    /// their number, or an error where the removal failed.
    pub fn record_cleanup(&mut self, removed: Option<u64>)
        ensures
            removed matches Some(n) ==> final(self).stats == (IndexStats {
                files_removed: n,
                ..old(self).stats
            }),
            removed is None ==> final(self).stats == (IndexStats {
                errors: bump(old(self).stats.errors),
                ..old(self).stats
            }),
            final(self).observed == old(self).observed,
            final(self).pending == old(self).pending,
    {
        match removed {
            Some(n) => {
                self.stats.files_removed = n;
            },
            None => {
                self.stats.errors = bumped(self.stats.errors);
            },
        }
    }
}

impl RunFlag {
    /// Whether a scan holds the flag.
    pub closed spec fn active(&self) -> bool {
        self.running
    }

    /// No scan in progress.
    pub fn new() -> (r: Self)
        ensures
            !r.active(),
    {
        RunFlag { running: false }
    }

    /// Whether a scan is in progress.
    pub fn is_running(&self) -> (r: bool)
        ensures
            r == self.active(),
    {
        self.running
    }

    /// Takes the flag for a new scan. While another scan holds it, this
    /// returns false and changes nothing: runs never overlap or queue.
    pub fn try_begin(&mut self) -> (started: bool)
        ensures
            started == !old(self).active(),
            final(self).active(),
    {
        if self.running {
            false
        } else {
            self.running = true;
            true
        }
    }

    /// Releases the flag at the end of a scan, whatever its outcome.
    pub fn finish(&mut self)
        ensures
            !final(self).active(),
    {
        self.running = false;
    }
}

/// Starts a scan under the single-flight flag: a fresh scan state where no
/// scan was in progress; none (and a run that reports zero counts) where one
/// was, which leaves that scan holding the flag.
pub fn begin_scan(flag: &mut RunFlag) -> (r: Result<ScanState, IndexStats>)
    ensures
        final(flag).active(),
        r is Ok <==> !old(flag).active(),
        r matches Ok(s) ==> zero_stats(s.stats) && s.observed@.len() == 0 && s.pending@.len() == 0,
        r matches Err(s) ==> zero_stats(s),
{
    if flag.try_begin() {
        Ok(ScanState::new())
    } else {
        Err(IndexStats::new())
    }
}

/// The counts after planning a run of walked entries, in order.
pub open spec fn stats_after_plans(s: IndexStats, entries: Seq<(EntryAttrs, Option<StoredAttrs>)>) -> IndexStats
    decreases entries.len(),
{
    if entries.len() == 0 {
        s
    } else {
        stats_after_plan(
            stats_after_plans(s, entries.drop_last()),
            entry_action(entries.last().0, entries.last().1),
        )
    }
}

/// Every walked entry matches what the store holds of it, and is Complete.
pub open spec fn all_unchanged_complete(entries: Seq<(EntryAttrs, Option<StoredAttrs>)>) -> bool {
    forall|i: int|
        0 <= i < entries.len() ==> match #[trigger] entries[i].1 {
            Some(st) => unchanged(entries[i].0, st) && st.status == MetadataStatus::Complete,
            None => false,
        }
}

/// Rescanning an unchanged tree writes nothing: when every walked entry
/// matches what the store holds and is Complete, each is skipped without a
/// probe (so no record is rewritten and its indexed-at time stays), and
/// the counts show every entry scanned and skipped and none indexed.
pub proof fn lemma_unchanged_rescan_skips_all(
    s: IndexStats,
    entries: Seq<(EntryAttrs, Option<StoredAttrs>)>,
)
    requires
        zero_stats(s),
        entries.len() < u64::MAX,
        all_unchanged_complete(entries),
    ensures
        forall|i: int|
            0 <= i < entries.len() ==> #[trigger] entry_action(entries[i].0, entries[i].1)
                == (EntryAction::Skip { probe: false }),
        stats_after_plans(s, entries).files_scanned == entries.len(),
        stats_after_plans(s, entries).files_skipped == entries.len(),
        stats_after_plans(s, entries).files_indexed == 0,
    decreases entries.len(),
{
    if entries.len() > 0 {
        let init = entries.drop_last();
        assert forall|i: int| 0 <= i < init.len() implies match #[trigger] init[i].1 {
            Some(st) => unchanged(init[i].0, st) && st.status == MetadataStatus::Complete,
            None => false,
        } by {
            assert(init[i] == entries[i]);
        }
        lemma_unchanged_rescan_skips_all(s, init);
        assert forall|i: int| 0 <= i < entries.len() implies #[trigger] entry_action(
            entries[i].0,
            entries[i].1,
        ) == (EntryAction::Skip { probe: false }) by {
            if i < init.len() {
                assert(init[i] == entries[i]);
                assert(entry_action(init[i].0, init[i].1) == (EntryAction::Skip { probe: false }));
            } else {
                assert(entries[i] == entries.last());
            }
        }
        assert(entry_action(entries.last().0, entries.last().1) == (EntryAction::Skip { probe: false }));
    }
}

/// A new media file goes through two phases: the first writes it Pending
/// and queues it for probing; a probe that succeeds settles it Complete; a
/// probe that fails otherwise than by finding no media (the prober missing,
/// a timeout, a crash) leaves it Pending, and the next scan of the
/// unchanged file queues it for probing again.
pub proof fn lemma_two_phase_status(
    e: EntryAttrs,
    probed: MediaMetadata,
    failure: MetadataError,
    stored: StoredAttrs,
)
    requires
        e.is_file,
        !(failure is NotMediaFile),
        unchanged(e, stored),
        stored.status == MetadataStatus::Pending,
    ensures
        entry_action(e, None) == (EntryAction::Write { status: MetadataStatus::Pending, probe: true }),
        settles(Ok(probed)),
        !settles(Err(failure)),
        entry_action(e, Some(stored)) == (EntryAction::Skip { probe: true }),
{
}

} // verus!
