//! Download tasks, their lifecycle and their progress.

use std::collections::HashMap;
use std::path::PathBuf;
use std::time::SystemTime;

use vstd::prelude::*;

use crate::types::Quality;

verus! {

/// A point in time; carried through, never inspected.
#[verifier::external_type_specification]
#[verifier::external_body]
pub struct ExSystemTime(SystemTime);

/// A file-system path; carried through, never inspected.
#[verifier::external_type_specification]
#[verifier::external_body]
pub struct ExPathBuf(PathBuf);

/// Commands sent to the download worker.
#[derive(Debug)]
pub enum DownloadCommand {
    /// Cancel a specific download.
    Cancel {
        /// The task ID to cancel.
        id: u64,
    },
    /// Add a download task to the queue.
    Enqueue {
        /// The task to enqueue.
        task: DownloadTask,
    },
    /// Shut down the download worker.
    Shutdown,
}

/// Events sent from download worker to GUI.
#[derive(Clone, Debug)]
pub enum DownloadEvent {
    /// Download completed successfully.
    Completed {
        /// Task ID.
        id: u64,
    },
    /// Download failed permanently.
    Failed {
        /// Task ID.
        id: u64,
        /// Error description.
        error: String,
    },
    /// Download has started (a slot was available).
    Started {
        /// Task ID.
        id: u64,
    },
    /// Download progress update (for batch downloads).
    Progress {
        /// Task ID.
        id: u64,
        /// Number of items completed so far.
        items_completed: u32,
        /// Total number of items (if known).
        total_items: Option<u32>,
    },
}

/// What is being downloaded.
#[derive(Clone, Debug)]
pub enum DownloadItem {
    /// Full album download.
    Album {
        /// Album ID.
        album_id: String,
        /// Album title for display.
        title: String,
        /// Artist name for display.
        artist: String,
        /// Cover art URL.
        cover_url: Option<String>,
    },
    /// Artist discography download.
    Artist {
        /// Artist ID.
        artist_id: i32,
        /// Artist name for display.
        name: String,
        /// Cover art URL.
        cover_url: Option<String>,
    },
    /// Playlist download.
    Playlist {
        /// Playlist ID for fetching tracks.
        playlist_id: String,
        /// Playlist name for display.
        title: String,
        /// Cover art URL.
        cover_url: Option<String>,
    },
    /// Single track download.
    Track {
        /// Track ID.
        track_id: i32,
        /// Track title for display.
        title: String,
        /// Artist name for display.
        artist: String,
        /// Cover art URL.
        cover_url: Option<String>,
    },
}

impl DownloadItem {
    /// The display title: the artist's name for a discography, the title
    /// otherwise.
    pub open spec fn title_spec(&self) -> Seq<char> {
        match self {
            DownloadItem::Artist { name, .. } => name@,
            DownloadItem::Album { title, .. } => title@,
            DownloadItem::Playlist { title, .. } => title@,
            DownloadItem::Track { title, .. } => title@,
        }
    }

    /// The display subtitle: the artist of an album or track, empty otherwise.
    pub open spec fn subtitle_spec(&self) -> Seq<char> {
        match self {
            DownloadItem::Album { artist, .. } => artist@,
            DownloadItem::Track { artist, .. } => artist@,
            _ => Seq::empty(),
        }
    }

    /// The cover art URL.
    pub open spec fn cover_url_spec(&self) -> Option<Seq<char>> {
        match self {
            DownloadItem::Album { cover_url, .. } => crate::url_patterns::opt_chars(*cover_url),
            DownloadItem::Artist { cover_url, .. } => crate::url_patterns::opt_chars(*cover_url),
            DownloadItem::Playlist { cover_url, .. } => crate::url_patterns::opt_chars(*cover_url),
            DownloadItem::Track { cover_url, .. } => crate::url_patterns::opt_chars(*cover_url),
        }
    }

    /// Returns the display title for this item.
    pub fn title(&self) -> (r: &str)
        ensures
            r@ == self.title_spec(),
    {
        match self {
            DownloadItem::Artist { name, .. } => name.as_str(),
            DownloadItem::Album { title, .. } => title.as_str(),
            DownloadItem::Playlist { title, .. } => title.as_str(),
            DownloadItem::Track { title, .. } => title.as_str(),
        }
    }

    /// Returns the display subtitle (artist name or empty).
    pub fn subtitle(&self) -> (r: &str)
        ensures
            r@ == self.subtitle_spec(),
    {
        match self {
            DownloadItem::Album { artist, .. } => artist.as_str(),
            DownloadItem::Track { artist, .. } => artist.as_str(),
            DownloadItem::Artist { .. } => {
                proof {
                    reveal_strlit("");
                }
                ""
            },
            DownloadItem::Playlist { .. } => {
                proof {
                    reveal_strlit("");
                }
                ""
            },
        }
    }

    /// Returns the cover art URL if available.
    pub fn cover_url(&self) -> (r: Option<&str>)
        ensures
            match r {
                Some(u) => self.cover_url_spec() == Some(u@),
                None => self.cover_url_spec() is None,
            },
    {
        let c = match self {
            DownloadItem::Album { cover_url, .. } => cover_url,
            DownloadItem::Artist { cover_url, .. } => cover_url,
            DownloadItem::Playlist { cover_url, .. } => cover_url,
            DownloadItem::Track { cover_url, .. } => cover_url,
        };
        match c {
            Some(u) => Some(u.as_str()),
            None => None,
        }
    }
}

/// Byte-level download progress.
#[derive(Clone, Debug)]
pub struct DownloadProgress {
    /// Bytes received so far.
    pub bytes_downloaded: u64,
    /// Total file size (may be unknown).
    pub total_bytes: Option<u64>,
    /// Number of items completed (for batch downloads).
    pub items_completed: u32,
    /// Total number of items (for batch downloads, if known).
    pub total_items: Option<u32>,
}

/// The fraction of a download that is done, as (part, whole): bytes when
/// the file size is known and positive, else items once at least one item
/// of a known positive total is done.
pub open spec fn progress_ratio(p: DownloadProgress) -> Option<(u64, u64)> {
    if p.total_bytes matches Some(t) && t > 0 {
        Some((p.bytes_downloaded, p.total_bytes->0))
    } else if p.total_items matches Some(t) && t > 0 && p.items_completed > 0 {
        Some((p.items_completed as u64, p.total_items->0 as u64))
    } else {
        None
    }
}

impl DownloadProgress {
    /// No bytes and no items yet.
    pub fn new() -> (p: DownloadProgress)
        ensures
            p.bytes_downloaded == 0,
            p.total_bytes is None,
            p.items_completed == 0,
            p.total_items is None,
    {
        DownloadProgress { bytes_downloaded: 0, total_bytes: None, items_completed: 0, total_items: None }
    }

    /// The part and the whole of which the download percentage is taken, if
    /// the total is known; the percentage is `100 * part / whole`.
    pub fn percentage_ratio(&self) -> (r: Option<(u64, u64)>)
        ensures
            r == progress_ratio(*self),
            r matches Some((_n, d)) ==> d > 0,
    {
        if let Some(total) = self.total_bytes {
            if total > 0 {
                return Some((self.bytes_downloaded, total));
            }
        }
        if let Some(total) = self.total_items {
            if total > 0 && self.items_completed > 0 {
                return Some((self.items_completed as u64, total as u64));
            }
        }
        None
    }
}

/// State machine for download lifecycle.
#[derive(Clone, Copy, Debug, PartialEq, Eq, Structural)]
pub enum DownloadStatus {
    /// Currently downloading.
    Active,
    /// User cancelled.
    Cancelled,
    /// Successfully finished.
    Completed,
    /// Errored out.
    Failed,
    /// Waiting for a download slot.
    Queued,
}

impl Default for DownloadStatus {
    /// A task waits in the queue.
    fn default() -> (s: DownloadStatus)
        ensures
            s == DownloadStatus::Queued,
    {
        DownloadStatus::Queued
    }
}

impl DownloadStatus {
    /// The status text shown in the queue (`Downloading...` while active).
    pub fn label(self) -> (r: &'static str)
        ensures
            r@ == match self {
                DownloadStatus::Queued => "Queued"@,
                DownloadStatus::Active => "Downloading..."@,
                DownloadStatus::Completed => "Completed"@,
                DownloadStatus::Cancelled => "Cancelled"@,
                DownloadStatus::Failed => "Failed"@,
            },
    {
        match self {
            DownloadStatus::Queued => "Queued",
            DownloadStatus::Active => "Downloading...",
            DownloadStatus::Completed => "Completed",
            DownloadStatus::Cancelled => "Cancelled",
            DownloadStatus::Failed => "Failed",
        }
    }

    /// Whether the download has ended: completed, failed or cancelled.
    pub fn is_finished(self) -> (b: bool)
        ensures
            b == is_final_status(self),
    {
        match self {
            DownloadStatus::Completed | DownloadStatus::Failed | DownloadStatus::Cancelled => true,
            _ => false,
        }
    }

    /// Whether the download can still be cancelled (queued or active).
    pub fn is_pending(self) -> (b: bool)
        ensures
            b == (self == DownloadStatus::Queued || self == DownloadStatus::Active),
    {
        match self {
            DownloadStatus::Queued | DownloadStatus::Active => true,
            _ => false,
        }
    }
}

/// Completed, failed and cancelled are final: no later event changes them.
pub open spec fn is_final_status(s: DownloadStatus) -> bool {
    s == DownloadStatus::Completed || s == DownloadStatus::Failed || s == DownloadStatus::Cancelled
}

/// The task after it ends with `status` at `now`: its completion time
/// becomes `now`, and its status becomes `status` unless it already ended.
pub open spec fn finished_task(t: DownloadTask, status: DownloadStatus, now: SystemTime) -> DownloadTask {
    if is_final_status(t.status) {
        DownloadTask { completed_at: Some(now), ..t }
    } else {
        DownloadTask { status, completed_at: Some(now), ..t }
    }
}

/// Represents a single download operation.
#[derive(Debug)]
pub struct DownloadTask {
    /// Completion time.
    pub completed_at: Option<SystemTime>,
    /// Unique task identifier.
    pub id: u64,
    /// What to download.
    pub item: DownloadItem,
    /// Destination directory.
    pub output_dir: PathBuf,
    /// Byte-level progress.
    pub progress: DownloadProgress,
    /// Audio quality level.
    pub quality: Quality,
    /// Current state.
    pub status: DownloadStatus,
}

impl DownloadTask {
    /// Creates a new queued download task with the given identifier.
    pub fn new(item: DownloadItem, quality: Quality, output_dir: PathBuf, id: u64) -> (t: Self)
        ensures
            t.id == id,
            t.item == item,
            t.quality == quality,
            t.output_dir == output_dir,
            t.status == DownloadStatus::Queued,
            t.progress == DownloadProgress::new_spec(),
            t.completed_at is None,
    {
        DownloadTask {
            id,
            item,
            quality,
            output_dir,
            status: DownloadStatus::Queued,
            progress: DownloadProgress::new(),
            completed_at: None,
        }
    }
}

impl DownloadProgress {
    /// No bytes and no items yet.
    pub open spec fn new_spec() -> DownloadProgress {
        DownloadProgress { bytes_downloaded: 0, total_bytes: None, items_completed: 0, total_items: None }
    }
}

/// The value at which the process-wide counter of download task IDs starts.
pub fn task_id_counter_start() -> (n: u64)
    ensures
        n == 1,
{
    1
}

/// Returns the next download task ID from `counter` and advances it
/// (wrapping, as an atomic `fetch_add` does).
pub fn next_id(counter: &mut u64) -> (id: u64)
    ensures
        id == *old(counter),
        *final(counter) == if *old(counter) == u64::MAX {
            0
        } else {
            (*old(counter) + 1) as u64
        },
{
    let id = *counter;
    *counter = if id == u64::MAX {
        0
    } else {
        id + 1
    };
    id
}

/// A task after "cancel all" at `now`: cancelled and completed at `now`
/// when it was queued or active, otherwise unchanged.
pub open spec fn cancelled_if_pending(t: DownloadTask, now: SystemTime) -> DownloadTask {
    if t.status == DownloadStatus::Active || t.status == DownloadStatus::Queued {
        DownloadTask { status: DownloadStatus::Cancelled, completed_at: Some(now), ..t }
    } else {
        t
    }
}

/// The keys of a task map, in the order in which the map is walked.
fn task_keys(tasks: &HashMap<u64, DownloadTask>) -> (keys: Vec<u64>)
    ensures
        keys@.no_duplicates(),
        keys@.to_set() == tasks@.dom(),
{
    let mut keys: Vec<u64> = Vec::new();
    for x in it: tasks.iter()
        invariant
            keys@.len() == it.index(),
            it.seq().len() == tasks@.dom().len(),
            it.seq().no_duplicates(),
            forall|i: int| 0 <= i < it.seq().len() ==> tasks@.contains_key(*(#[trigger] it.seq()[i]).0)
                && tasks@[*it.seq()[i].0] == *it.seq()[i].1,
            forall|j: int| 0 <= j < keys@.len() ==> #[trigger] keys@[j] == *it.seq()[j].0,
            keys@.no_duplicates(),
            forall|j: int| 0 <= j < keys@.len() ==> tasks@.contains_key(#[trigger] keys@[j]),
    {
        let (k, _) = x;
        proof {
            let sq = it.seq();
            let n = it.index();
            assert(sq[n] == x);
            assert forall|j: int| 0 <= j < keys@.len() implies keys@[j] != *k by {
                if keys@[j] == *k {
                    assert(*sq[j].1 == tasks@[*k]);
                    assert(*sq[n].1 == tasks@[*k]);
                    assert(sq[j] == sq[n]);
                }
            }
        }
        let ghost before = keys@;
        keys.push(*k);
        proof {
            assert forall|a: int, b: int| 0 <= a < b < keys@.len() implies keys@[a] != keys@[b] by {
                if b < before.len() {
                    assert(keys@[a] == before[a] && keys@[b] == before[b]);
                } else {
                    assert(keys@[a] == before[a]);
                }
            }
        }
    }
    proof {
        assert(keys@.len() == tasks@.dom().len());
        assert(keys@.to_set().subset_of(tasks@.dom())) by {
            assert forall|k: u64| keys@.to_set().contains(k) implies tasks@.dom().contains(k) by {
                let j = choose|j: int| 0 <= j < keys@.len() && keys@[j] == k;
            }
        }
        keys@.unique_seq_to_set();
        vstd::std_specs::hash::axiom_hashmap_view_finite_dom(*tasks);
        vstd::set_lib::lemma_subset_equality(keys@.to_set(), tasks@.dom());
    }
    keys
}

/// Marks all queued and active tasks as cancelled, completed at `now`.
///
/// Does NOT remove tasks — workers need to check task status when
/// processing enqueued commands.
pub fn cancel_all_tasks(tasks: &mut HashMap<u64, DownloadTask>, now: SystemTime)
    ensures
        final(tasks)@.dom() == old(tasks)@.dom(),
        forall|k: u64| #[trigger] old(tasks)@.contains_key(k) ==> final(tasks)@[k] == cancelled_if_pending(old(tasks)@[k], now),
{
    let keys = task_keys(tasks);
    let ghost orig = tasks@;
    let mut i: usize = 0;
    while i < keys.len()
        invariant
            i <= keys@.len(),
            keys@.no_duplicates(),
            keys@.to_set() == orig.dom(),
            tasks@.dom() == orig.dom(),
            forall|k: u64| #[trigger] orig.contains_key(k) ==> tasks@[k] == if keys@.take(i as int).contains(k) {
                cancelled_if_pending(orig[k], now)
            } else {
                orig[k]
            },
        decreases keys@.len() - i,
    {
        let k = keys[i];
        assert(keys@.to_set().contains(k));
        assert(!keys@.take(i as int).contains(k)) by {
            if keys@.take(i as int).contains(k) {
                let j = choose|j: int| 0 <= j < i && #[trigger] keys@.take(i as int)[j] == k;
                assert(keys@[j] == keys@[i as int]);
            }
        }
        match tasks.remove(&k) {
            Some(t) => {
                let mut t = t;
                if t.status == DownloadStatus::Active || t.status == DownloadStatus::Queued {
                    t.status = DownloadStatus::Cancelled;
                    t.completed_at = Some(now);
                }
                tasks.insert(k, t);
            },
            None => {},
        }
        proof {
            assert(tasks@.dom() =~= orig.dom());
            assert forall|k2: u64| #[trigger] orig.contains_key(k2) implies tasks@[k2] == if keys@.take(i + 1).contains(k2) {
                cancelled_if_pending(orig[k2], now)
            } else {
                orig[k2]
            } by {
                if k2 == k {
                    assert(keys@.take(i + 1)[i as int] == k);
                } else {
                    assert(keys@.take(i + 1).contains(k2) == keys@.take(i as int).contains(k2)) by {
                        if keys@.take(i + 1).contains(k2) {
                            let j = choose|j: int| 0 <= j < i + 1 && #[trigger] keys@.take(i + 1)[j] == k2;
                            assert(keys@.take(i as int)[j] == k2);
                        }
                        if keys@.take(i as int).contains(k2) {
                            let j = choose|j: int| 0 <= j < i && #[trigger] keys@.take(i as int)[j] == k2;
                            assert(keys@.take(i + 1)[j] == k2);
                        }
                    }
                }
            }
        }
        i = i + 1;
    }
    proof {
        assert(keys@.take(keys@.len() as int) =~= keys@);
        assert forall|k: u64| #[trigger] orig.contains_key(k) implies keys@.contains(k) by {
            assert(keys@.to_set().contains(k));
        }
    }
}

impl DownloadTask {
    /// A worker took the task: it is active.
    pub fn mark_active(&mut self)
        ensures
            *final(self) == (DownloadTask { status: DownloadStatus::Active, ..*old(self) }),
    {
        self.status = DownloadStatus::Active;
    }

    /// The download finished at `now`; a task already completed, failed or
    /// cancelled keeps its status and takes the new completion time.
    pub fn mark_completed(&mut self, now: SystemTime)
        ensures
            *final(self) == finished_task(*old(self), DownloadStatus::Completed, now),
    {
        if !self.status.is_finished() {
            self.status = DownloadStatus::Completed;
        }
        self.completed_at = Some(now);
    }

    /// The download ended without success at `now`; a task already
    /// completed, failed or cancelled keeps its status and takes the new
    /// completion time.
    pub fn mark_failed(&mut self, now: SystemTime)
        ensures
            *final(self) == finished_task(*old(self), DownloadStatus::Failed, now),
    {
        if !self.status.is_finished() {
            self.status = DownloadStatus::Failed;
        }
        self.completed_at = Some(now);
    }

    /// The user cancelled the download at `now`; a task already completed,
    /// failed or cancelled keeps its status and takes the new completion
    /// time.
    pub fn mark_cancelled(&mut self, now: SystemTime)
        ensures
            *final(self) == finished_task(*old(self), DownloadStatus::Cancelled, now),
    {
        if !self.status.is_finished() {
            self.status = DownloadStatus::Cancelled;
        }
        self.completed_at = Some(now);
    }

    /// Records how many items of a batch are done.
    pub fn record_items(&mut self, items_completed: u32, total_items: Option<u32>)
        ensures
            *final(self) == (DownloadTask {
                progress: DownloadProgress { items_completed, total_items, ..old(self).progress },
                ..*old(self)
            }),
    {
        self.progress.items_completed = items_completed;
        self.progress.total_items = total_items;
    }

    /// Updates the task for an event of its worker at time `now`: progress
    /// is recorded, completion and failure close the task at `now` (a task
    /// already completed, failed or cancelled keeps its status), and a start
    /// leaves it as it is.
    pub fn apply_event(&mut self, event: &DownloadEvent, now: SystemTime)
        ensures
            match *event {
                DownloadEvent::Started { .. } => *final(self) == *old(self),
                DownloadEvent::Progress { items_completed, total_items, .. } => *final(self) == (
                DownloadTask {
                    progress: DownloadProgress { items_completed, total_items, ..old(self).progress },
                    ..*old(self)
                }),
                DownloadEvent::Completed { .. } => *final(self) == finished_task(
                    *old(self),
                    DownloadStatus::Completed,
                    now,
                ),
                DownloadEvent::Failed { .. } => *final(self) == finished_task(
                    *old(self),
                    DownloadStatus::Failed,
                    now,
                ),
            },
    {
        match event {
            DownloadEvent::Started { .. } => {},
            DownloadEvent::Progress { items_completed, total_items, .. } => {
                self.record_items(*items_completed, *total_items);
            },
            DownloadEvent::Completed { .. } => {
                self.mark_completed(now);
            },
            DownloadEvent::Failed { .. } => {
                self.mark_failed(now);
            },
        }
    }
}

/// A worker takes an enqueued task: it is recorded under its ID and marked
/// active.
pub fn start_task(tasks: &mut HashMap<u64, DownloadTask>, task: DownloadTask)
    ensures
        final(tasks)@ == old(tasks)@.insert(task.id, DownloadTask { status: DownloadStatus::Active, ..task }),
{
    let id = task.id;
    let mut task = task;
    task.mark_active();
    tasks.insert(id, task);
}

/// The download of task `id` ended at `now`, with success or not: the task
/// closes as `finished_task` says (a task already ended keeps its status).
/// A task that is not in the map is left out.
pub fn record_outcome(tasks: &mut HashMap<u64, DownloadTask>, id: u64, succeeded: bool, now: SystemTime)
    ensures
        old(tasks)@.contains_key(id) ==> final(tasks)@ == old(tasks)@.insert(
            id,
            finished_task(
                old(tasks)@[id],
                if succeeded { DownloadStatus::Completed } else { DownloadStatus::Failed },
                now,
            ),
        ),
        !old(tasks)@.contains_key(id) ==> final(tasks)@ == old(tasks)@,
{
    let ghost before = tasks@;
    match tasks.remove(&id) {
        Some(t) => {
            let mut t = t;
            if succeeded {
                t.mark_completed(now);
            } else {
                t.mark_failed(now);
            }
            tasks.insert(id, t);
            proof {
                assert(tasks@ =~= before.insert(id, finished_task(
                    before[id],
                    if succeeded { DownloadStatus::Completed } else { DownloadStatus::Failed },
                    now,
                )));
            }
        },
        None => {
            assert(tasks@ =~= before);
        },
    }
}

/// The user cancelled task `id` at `now`: the task closes as cancelled (a
/// task already ended keeps its status). A task that is not in the map is
/// left out.
pub fn cancel_task(tasks: &mut HashMap<u64, DownloadTask>, id: u64, now: SystemTime)
    ensures
        old(tasks)@.contains_key(id) ==> final(tasks)@ == old(tasks)@.insert(
            id,
            finished_task(old(tasks)@[id], DownloadStatus::Cancelled, now),
        ),
        !old(tasks)@.contains_key(id) ==> final(tasks)@ == old(tasks)@,
{
    let ghost before = tasks@;
    match tasks.remove(&id) {
        Some(t) => {
            let mut t = t;
            t.mark_cancelled(now);
            tasks.insert(id, t);
            proof {
                assert(tasks@ =~= before.insert(id, finished_task(before[id], DownloadStatus::Cancelled, now)));
            }
        },
        None => {
            assert(tasks@ =~= before);
        },
    }
}

/// Progress of task `id`: how many items of its batch are done. A task that
/// is not in the map is left out.
pub fn record_task_progress(
    tasks: &mut HashMap<u64, DownloadTask>,
    id: u64,
    items_completed: u32,
    total_items: Option<u32>,
)
    ensures
        old(tasks)@.contains_key(id) ==> final(tasks)@ == old(tasks)@.insert(
            id,
            DownloadTask {
                progress: DownloadProgress { items_completed, total_items, ..old(tasks)@[id].progress },
                ..old(tasks)@[id]
            },
        ),
        !old(tasks)@.contains_key(id) ==> final(tasks)@ == old(tasks)@,
{
    let ghost before = tasks@;
    match tasks.remove(&id) {
        Some(t) => {
            let mut t = t;
            t.record_items(items_completed, total_items);
            tasks.insert(id, t);
            proof {
                assert(tasks@ =~= before.insert(id, DownloadTask {
                    progress: DownloadProgress { items_completed, total_items, ..before[id].progress },
                    ..before[id]
                }));
            }
        },
        None => {
            assert(tasks@ =~= before);
        },
    }
}

/// Applies an event of the download worker to the downloads page: `rows`
/// holds the IDs of the tasks listed, in order, and `tasks` the tasks by
/// ID. A start lists its task (when known) and the result says that the
/// list is to be shown instead of the empty page; progress, completion and
/// failure update the task at `now` (a task already ended keeps its status)
/// and leave the rows, whose content is then refreshed.
pub fn handle_event(
    rows: &mut Vec<u64>,
    tasks: &mut HashMap<u64, DownloadTask>,
    event: &DownloadEvent,
    now: SystemTime,
) -> (show_list: bool)
    ensures
        match *event {
            DownloadEvent::Started { id } => {
                &&& final(rows)@ == if old(tasks)@.contains_key(id) {
                    old(rows)@.push(id)
                } else {
                    old(rows)@
                }
                &&& final(tasks)@ == old(tasks)@
                &&& show_list == (final(rows)@.len() > 0)
            },
            DownloadEvent::Progress { id, items_completed, total_items } => {
                &&& final(rows)@ == old(rows)@
                &&& old(tasks)@.contains_key(id) ==> final(tasks)@ == old(tasks)@.insert(
                    id,
                    DownloadTask {
                        progress: DownloadProgress { items_completed, total_items, ..old(tasks)@[id].progress },
                        ..old(tasks)@[id]
                    },
                )
                &&& !old(tasks)@.contains_key(id) ==> final(tasks)@ == old(tasks)@
                &&& !show_list
            },
            DownloadEvent::Completed { id } => {
                &&& final(rows)@ == old(rows)@
                &&& old(tasks)@.contains_key(id) ==> final(tasks)@ == old(tasks)@.insert(
                    id,
                    finished_task(old(tasks)@[id], DownloadStatus::Completed, now),
                )
                &&& !old(tasks)@.contains_key(id) ==> final(tasks)@ == old(tasks)@
                &&& !show_list
            },
            DownloadEvent::Failed { id, .. } => {
                &&& final(rows)@ == old(rows)@
                &&& old(tasks)@.contains_key(id) ==> final(tasks)@ == old(tasks)@.insert(
                    id,
                    finished_task(old(tasks)@[id], DownloadStatus::Failed, now),
                )
                &&& !old(tasks)@.contains_key(id) ==> final(tasks)@ == old(tasks)@
                &&& !show_list
            },
        },
{
    match event {
        DownloadEvent::Started { id } => {
            if tasks.contains_key(id) {
                rows.push(*id);
            }
            rows.len() > 0
        },
        DownloadEvent::Progress { id, items_completed, total_items } => {
            record_task_progress(tasks, *id, *items_completed, *total_items);
            false
        },
        DownloadEvent::Completed { id } => {
            record_outcome(tasks, *id, true, now);
            false
        },
        DownloadEvent::Failed { id, .. } => {
            record_outcome(tasks, *id, false, now);
            false
        },
    }
}

/// Whether a task can still be cancelled: queued or active.
pub open spec fn is_pending_task(t: DownloadTask) -> bool {
    t.status == DownloadStatus::Queued || t.status == DownloadStatus::Active
}

/// The identifiers of the tasks that are still queued or active, each once,
/// in the order in which the map is walked.
pub fn pending_task_ids(tasks: &HashMap<u64, DownloadTask>) -> (ids: Vec<u64>)
    ensures
        ids@.no_duplicates(),
        forall|k: u64| ids@.contains(k) <==> tasks@.contains_key(k) && is_pending_task(tasks@[k]),
{
    let keys = task_keys(tasks);
    let mut ids: Vec<u64> = Vec::new();
    let mut i: usize = 0;
    while i < keys.len()
        invariant
            i <= keys@.len(),
            keys@.no_duplicates(),
            keys@.to_set() == tasks@.dom(),
            ids@.no_duplicates(),
            forall|k: u64| ids@.contains(k) <==> keys@.take(i as int).contains(k) && is_pending_task(tasks@[k]),
        decreases keys@.len() - i,
    {
        let k = keys[i];
        assert(keys@.to_set().contains(k));
        assert(!keys@.take(i as int).contains(k)) by {
            if keys@.take(i as int).contains(k) {
                let j = choose|j: int| 0 <= j < i && #[trigger] keys@.take(i as int)[j] == k;
                assert(keys@[j] == keys@[i as int]);
            }
        }
        let ghost before = ids@;
        match tasks.get(&k) {
            Some(t) => {
                if t.status.is_pending() {
                    ids.push(k);
                }
            },
            None => {},
        }
        proof {
            assert(tasks@.contains_key(k));
            assert(ids@ == if is_pending_task(tasks@[k]) { before.push(k) } else { before });
            let t0 = keys@.take(i as int);
            let t1 = keys@.take(i + 1);
            assert(t1 =~= t0.push(k));
            assert forall|k2: u64| t1.contains(k2) <==> t0.contains(k2) || k2 == k by {
                if t1.contains(k2) {
                    let j = choose|j: int| 0 <= j < t1.len() && #[trigger] t1[j] == k2;
                    if j < t0.len() {
                        assert(t0[j] == k2);
                    }
                }
                if t0.contains(k2) {
                    let j = choose|j: int| 0 <= j < t0.len() && #[trigger] t0[j] == k2;
                    assert(t1[j] == k2);
                }
                if k2 == k {
                    assert(t1[i as int] == k);
                }
            }
            assert forall|k2: u64| ids@.contains(k2) <==> before.contains(k2) || (k2 == k && is_pending_task(tasks@[k])) by {
                if is_pending_task(tasks@[k]) {
                    if ids@.contains(k2) {
                        let j = choose|j: int| 0 <= j < ids@.len() && #[trigger] ids@[j] == k2;
                        if j < before.len() {
                            assert(before[j] == k2);
                        }
                    }
                    if before.contains(k2) {
                        let j = choose|j: int| 0 <= j < before.len() && #[trigger] before[j] == k2;
                        assert(ids@[j] == k2);
                    }
                    if k2 == k {
                        assert(ids@[before.len() as int] == k);
                    }
                }
            }
            assert(!before.contains(k));
            assert forall|k2: u64| ids@.contains(k2) <==> t1.contains(k2) && is_pending_task(tasks@[k2]) by {
                assert(before.contains(k2) <==> t0.contains(k2) && is_pending_task(tasks@[k2]));
            }
            assert forall|a: int, b: int| 0 <= a < b < ids@.len() implies ids@[a] != ids@[b] by {
                if b == before.len() {
                    assert(before.contains(ids@[a])) by {
                        assert(before[a] == ids@[a]);
                    }
                } else {
                    assert(ids@[a] == before[a] && ids@[b] == before[b]);
                }
            }
        }
        i = i + 1;
    }
    assert(keys@.take(keys@.len() as int) =~= keys@);
    proof {
        assert forall|k: u64| ids@.contains(k) <==> tasks@.contains_key(k) && is_pending_task(tasks@[k]) by {
            if tasks@.contains_key(k) {
                assert(keys@.to_set().contains(k));
            }
            if keys@.contains(k) {
                assert(keys@.to_set().contains(k));
            }
        }
    }
    ids
}

} // verus!
