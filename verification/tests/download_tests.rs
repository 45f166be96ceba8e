use std::collections::HashMap;
use std::path::PathBuf;
use std::time::SystemTime;

use qobuz_downloader_rust::download::manager::{
    check_cancelled, extract_playlist_track_ids, AlbumTrackBatch,
    ArtistAlbumBatch, PlaylistTrackBatch,
};
use qobuz_downloader_rust::download::progress::{
    cancel_all_tasks, cancel_task, handle_event, next_id, pending_task_ids, record_outcome, record_task_progress, start_task, task_id_counter_start, DownloadEvent, DownloadItem, DownloadProgress,
    DownloadStatus, DownloadTask,
};
use qobuz_downloader_rust::errors::{is_cancelled_error, ApiError, AppError};
use qobuz_downloader_rust::types::Quality;

fn track_item() -> DownloadItem {
    DownloadItem::Track {
        track_id: 7,
        title: "Song".to_string(),
        artist: "Singer".to_string(),
        cover_url: Some("http://img".to_string()),
    }
}

fn task(id: u64) -> DownloadTask {
    DownloadTask::new(track_item(), Quality::Flac24_96, PathBuf::from("/out"), id)
}

fn download_message(e: &AppError) -> Option<String> {
    match e {
        AppError::Download(m) => Some(m.clone()),
        _ => None,
    }
}

#[test]
fn next_id_counts_and_wraps() {
    let mut c: u64 = 5;
    assert_eq!(next_id(&mut c), 5);
    assert_eq!(c, 6);
    let mut w = u64::MAX;
    assert_eq!(next_id(&mut w), u64::MAX);
    assert_eq!(w, 0);
}

#[test]
fn task_ids_start_at_one() {
    let mut c = task_id_counter_start();
    assert_eq!(next_id(&mut c), 1);
    assert_eq!(next_id(&mut c), 2);
}

#[test]
fn new_task_is_queued() {
    let t = task(3);
    assert_eq!(t.id, 3);
    assert_eq!(t.status, DownloadStatus::Queued);
    assert_eq!(t.quality, Quality::Flac24_96);
    assert!(t.completed_at.is_none());
    assert_eq!(t.progress.items_completed, 0);
    assert_eq!(DownloadStatus::default(), DownloadStatus::Queued);
}

#[test]
fn item_display_fields() {
    let t = track_item();
    assert_eq!(t.title(), "Song");
    assert_eq!(t.subtitle(), "Singer");
    assert_eq!(t.cover_url(), Some("http://img"));
    let a = DownloadItem::Artist { artist_id: 1, name: "Band".to_string(), cover_url: None };
    assert_eq!(a.title(), "Band");
    assert_eq!(a.subtitle(), "");
    assert_eq!(a.cover_url(), None);
    let p = DownloadItem::Playlist {
        playlist_id: "9".to_string(),
        title: "Mix".to_string(),
        cover_url: None,
    };
    assert_eq!(p.title(), "Mix");
    assert_eq!(p.subtitle(), "");
}

#[test]
fn percentage_ratio_prefers_bytes() {
    let mut p = DownloadProgress::new();
    assert_eq!(p.percentage_ratio(), None);
    p.total_items = Some(4);
    assert_eq!(p.percentage_ratio(), None);
    p.items_completed = 1;
    assert_eq!(p.percentage_ratio(), Some((1, 4)));
    p.total_bytes = Some(200);
    p.bytes_downloaded = 50;
    assert_eq!(p.percentage_ratio(), Some((50, 200)));
    p.total_bytes = Some(0);
    assert_eq!(p.percentage_ratio(), Some((1, 4)));
}

#[test]
fn status_labels_and_pending() {
    assert_eq!(DownloadStatus::Active.label(), "Downloading...");
    assert_eq!(DownloadStatus::Queued.label(), "Queued");
    assert_eq!(DownloadStatus::Failed.label(), "Failed");
    assert!(DownloadStatus::Active.is_pending());
    assert!(DownloadStatus::Queued.is_pending());
    assert!(!DownloadStatus::Completed.is_pending());
    assert!(!DownloadStatus::Cancelled.is_pending());
}

#[test]
fn task_lifecycle_events() {
    let now = SystemTime::UNIX_EPOCH;
    let mut t = task(1);
    t.apply_event(&DownloadEvent::Started { id: 1 }, now);
    assert_eq!(t.status, DownloadStatus::Queued);
    t.mark_active();
    assert_eq!(t.status, DownloadStatus::Active);
    t.apply_event(&DownloadEvent::Progress { id: 1, items_completed: 2, total_items: Some(5) }, now);
    assert_eq!(t.progress.items_completed, 2);
    assert_eq!(t.progress.total_items, Some(5));
    t.apply_event(&DownloadEvent::Completed { id: 1 }, now);
    assert_eq!(t.status, DownloadStatus::Completed);
    assert_eq!(t.completed_at, Some(now));
}

#[test]
fn failure_keeps_cancellation() {
    let now = SystemTime::UNIX_EPOCH;
    let mut t = task(1);
    t.mark_cancelled(now);
    let later = now + std::time::Duration::from_secs(5);
    t.apply_event(&DownloadEvent::Failed { id: 1, error: "Download cancelled".to_string() }, later);
    assert_eq!(t.status, DownloadStatus::Cancelled);
    assert_eq!(t.completed_at, Some(later));
    t.apply_event(&DownloadEvent::Completed { id: 1 }, now);
    assert_eq!(t.status, DownloadStatus::Cancelled);
    assert_eq!(t.completed_at, Some(now));
    let mut u = task(2);
    u.apply_event(&DownloadEvent::Failed { id: 2, error: "boom".to_string() }, now);
    assert_eq!(u.status, DownloadStatus::Failed);
    assert_eq!(u.completed_at, Some(now));
}

#[test]
fn cancel_all_tasks_cancels_pending_only() {
    let now = SystemTime::UNIX_EPOCH;
    let mut tasks: HashMap<u64, DownloadTask> = HashMap::new();
    for id in [1, 2, 3] {
        tasks.insert(id, task(id));
    }
    tasks.get_mut(&2).unwrap().mark_active();
    tasks.get_mut(&3).unwrap().mark_completed(now);
    let mut pending = pending_task_ids(&tasks);
    pending.sort();
    assert_eq!(pending, vec![1, 2]);
    let later = now + std::time::Duration::from_secs(1);
    cancel_all_tasks(&mut tasks, later);
    assert_eq!(tasks.len(), 3);
    assert_eq!(tasks[&1].status, DownloadStatus::Cancelled);
    assert_eq!(tasks[&1].completed_at, Some(later));
    assert_eq!(tasks[&2].status, DownloadStatus::Cancelled);
    assert_eq!(tasks[&3].status, DownloadStatus::Completed);
    assert_eq!(tasks[&3].completed_at, Some(now));
    assert_eq!(pending_task_ids(&tasks), Vec::<u64>::new());
}

#[test]
fn album_batch_skips_failures() {
    let mut b = AlbumTrackBatch::new(3);
    assert!(b.has_next());
    assert_eq!(b.record(Ok(PathBuf::from("/a/1.flac"))).ok(), Some((1, 3)));
    assert_eq!(b.record(Err(ApiError::Failed("x".to_string()))).ok(), Some((2, 3)));
    assert_eq!(b.record(Ok(PathBuf::from("/a/3.flac"))).ok(), Some((3, 3)));
    assert!(!b.has_next());
    assert_eq!(b.finish().ok(), Some(PathBuf::from("/a/3.flac")));
}

#[test]
fn album_batch_cancel_and_empty() {
    let mut b = AlbumTrackBatch::new(2);
    let r = b.record(Err(ApiError::Canceled));
    assert_eq!(download_message(&r.err().unwrap()), Some("Download cancelled".to_string()));
    let empty = AlbumTrackBatch::new(0);
    assert_eq!(download_message(&empty.finish().err().unwrap()), Some("No tracks downloaded".to_string()));
}

#[test]
fn playlist_batch_first_failure_is_skipped() {
    let mut b = PlaylistTrackBatch::new(2);
    assert_eq!(b.record(Err(ApiError::Failed("boom".to_string()))).ok(), Some(1));
    assert_eq!(b.record(Ok(PathBuf::from("/p/2.flac"))).ok(), Some(2));
    assert!(!b.has_next());
    assert_eq!(b.finish().ok(), Some(PathBuf::from("/p/2.flac")));
    let mut c = PlaylistTrackBatch::new(1);
    assert_eq!(c.record(Err(ApiError::Failed("boom".to_string()))).ok(), Some(1));
    assert_eq!(
        download_message(&c.finish().err().unwrap()),
        Some("No tracks downloaded".to_string())
    );
}

#[test]
fn playlist_batch_skips_416_and_later_failures() {
    let mut b = PlaylistTrackBatch::new(3);
    assert_eq!(b.record(Err(ApiError::Failed("416".to_string()))).ok(), Some(1));
    assert_eq!(b.record(Ok(PathBuf::from("/p/2.flac"))).ok(), Some(2));
    assert_eq!(b.record(Err(ApiError::Failed("boom".to_string()))).ok(), Some(3));
    assert!(!b.has_next());
    assert_eq!(b.finish().ok(), Some(PathBuf::from("/p/2.flac")));
}

#[test]
fn artist_batch() {
    match ArtistAlbumBatch::start(0) {
        Err(e) => assert_eq!(download_message(&e), Some("No releases found for artist".to_string())),
        Ok(_) => panic!("artist without releases accepted"),
    }
    let mut b = ArtistAlbumBatch::start(2).ok().unwrap();
    assert_eq!(b.record(Err(ApiError::Failed("x".to_string()))), (1, 2));
    assert_eq!(b.record(Ok(Some(PathBuf::from("/art/1")))), (2, 2));
    assert_eq!(b.finish().ok(), Some(PathBuf::from("/art/1")));
    let c = ArtistAlbumBatch::start(1).ok().unwrap();
    assert_eq!(
        download_message(&c.finish().err().unwrap()),
        Some("No albums downloaded for artist".to_string())
    );
}

#[test]
fn cancellation_checks() {
    assert!(check_cancelled(false).is_none());
    let e = check_cancelled(true).unwrap();
    assert!(is_cancelled_error(&e));
    assert!(is_cancelled_error(&AppError::Api(ApiError::Canceled)));
    assert!(!is_cancelled_error(&AppError::Download("other".to_string())));
    assert!(!is_cancelled_error(&AppError::NotAuthenticated));
    assert!(is_cancelled_error(&AppError::cancelled()));
}

#[test]
fn playlist_track_ids() {
    let ids = extract_playlist_track_ids(Some(vec![Some(1), None, Some(3)])).ok().unwrap();
    assert_eq!(ids, vec![1, 3]);
    let e = extract_playlist_track_ids(Some(vec![None])).err().unwrap();
    assert_eq!(download_message(&e), Some("No tracks in playlist".to_string()));
    let e2 = extract_playlist_track_ids(None).err().unwrap();
    assert_eq!(download_message(&e2), Some("No tracks in playlist".to_string()));
}

#[test]
fn worker_steps_on_the_task_map() {
    let now = SystemTime::UNIX_EPOCH;
    let later = now + std::time::Duration::from_secs(3);
    let mut tasks: HashMap<u64, DownloadTask> = HashMap::new();
    start_task(&mut tasks, task(4));
    assert_eq!(tasks[&4].status, DownloadStatus::Active);
    record_task_progress(&mut tasks, 4, 2, Some(9));
    assert_eq!(tasks[&4].progress.items_completed, 2);
    assert_eq!(tasks[&4].progress.total_items, Some(9));
    cancel_task(&mut tasks, 4, now);
    assert_eq!(tasks[&4].status, DownloadStatus::Cancelled);
    record_outcome(&mut tasks, 4, false, later);
    assert_eq!(tasks[&4].status, DownloadStatus::Cancelled);
    assert_eq!(tasks[&4].completed_at, Some(later));
    start_task(&mut tasks, task(5));
    record_outcome(&mut tasks, 5, true, now);
    assert_eq!(tasks[&5].status, DownloadStatus::Completed);
    record_outcome(&mut tasks, 99, true, now);
    cancel_task(&mut tasks, 99, now);
    record_task_progress(&mut tasks, 99, 1, None);
    assert_eq!(tasks.len(), 2);
}

#[test]
fn downloads_page_events() {
    let now = SystemTime::UNIX_EPOCH;
    let mut rows: Vec<u64> = Vec::new();
    let mut tasks: HashMap<u64, DownloadTask> = HashMap::new();
    assert!(!handle_event(&mut rows, &mut tasks, &DownloadEvent::Started { id: 8 }, now));
    assert!(rows.is_empty());
    tasks.insert(8, task(8));
    assert!(handle_event(&mut rows, &mut tasks, &DownloadEvent::Started { id: 8 }, now));
    assert_eq!(rows, vec![8]);
    assert!(!handle_event(&mut rows, &mut tasks, &DownloadEvent::Progress { id: 8, items_completed: 1, total_items: Some(4) }, now));
    assert_eq!(tasks[&8].progress.items_completed, 1);
    assert!(!handle_event(&mut rows, &mut tasks, &DownloadEvent::Failed { id: 8, error: "boom".to_string() }, now));
    assert_eq!(tasks[&8].status, DownloadStatus::Failed);
    assert!(!handle_event(&mut rows, &mut tasks, &DownloadEvent::Completed { id: 8 }, now));
    assert_eq!(tasks[&8].status, DownloadStatus::Failed);
    assert_eq!(rows, vec![8]);
}
