use std::time::SystemTime;

use qobuz_downloader_rust::ui::main_window::{
    added_to_queue_message, check_download_ready, DownloadItem, DownloadMetadata,
    DownloadQueueManager, DownloadStatus, DownloadType, item_id_counter_start, queue_row_display,
};
use tokio_util::sync::CancellationToken;

fn item(kind: DownloadType, format_id: &str) -> DownloadItem {
    DownloadItem {
        id: String::new(),
        download_type: kind,
        format_id: format_id.to_string(),
        metadata: None,
        status: DownloadStatus::Queued,
        created_at: SystemTime::UNIX_EPOCH,
    }
}

fn statuses(m: &DownloadQueueManager) -> Vec<String> {
    m.get_items()
        .iter()
        .map(|i| match &i.status {
            DownloadStatus::Queued => "queued".to_string(),
            DownloadStatus::Downloading => "downloading".to_string(),
            DownloadStatus::Completed => "completed".to_string(),
            DownloadStatus::Cancelled => "cancelled".to_string(),
            DownloadStatus::Failed(e) => format!("failed:{e}"),
        })
        .collect()
}

#[test]
fn add_item_assigns_sequential_ids() {
    let mut m = DownloadQueueManager::new();
    let mut c = item_id_counter_start();
    assert!(m.is_empty());
    m.add_item(item(DownloadType::Album("a".to_string()), "6"), &mut c);
    m.add_item(item(DownloadType::Track("t".to_string()), "5"), &mut c);
    let ids: Vec<String> = m.get_items().iter().map(|i| i.id.clone()).collect();
    assert_eq!(ids, vec!["0".to_string(), "1".to_string()]);
    assert_eq!(m.get_items()[1].format_id, "5");
    assert!(!m.is_empty());
}

#[test]
fn get_next_item_marks_first_queued() {
    let mut m = DownloadQueueManager::new();
    let mut c = item_id_counter_start();
    m.add_item(item(DownloadType::Album("a".to_string()), "6"), &mut c);
    m.add_item(item(DownloadType::Album("b".to_string()), "6"), &mut c);
    let next = m.get_next_item().unwrap();
    assert_eq!(next.id, "0");
    assert!(matches!(next.status, DownloadStatus::Downloading));
    assert_eq!(statuses(&m), vec!["downloading", "queued"]);
    assert_eq!(m.get_next_item().map(|i| i.id), Some("1".to_string()));
    assert!(m.get_next_item().is_none());
    assert!(m.is_empty());
}

#[test]
fn cancel_item_cancels_one() {
    let mut m = DownloadQueueManager::new();
    let mut c = item_id_counter_start();
    m.add_item(item(DownloadType::Album("a".to_string()), "6"), &mut c);
    m.add_item(item(DownloadType::Album("b".to_string()), "6"), &mut c);
    let token = CancellationToken::new();
    m.register_cancellation_token("1".to_string(), token.clone());
    m.cancel_item("1");
    assert!(token.is_cancelled());
    assert_eq!(statuses(&m), vec!["queued", "cancelled"]);
    m.cancel_item("nope");
    assert_eq!(statuses(&m), vec!["queued", "cancelled"]);
}

#[test]
fn cancel_all_leaves_nothing_pending() {
    let mut m = DownloadQueueManager::new();
    let mut c = item_id_counter_start();
    for id in ["a", "b", "c"] {
        m.add_item(item(DownloadType::Track(id.to_string()), "6"), &mut c);
    }
    m.update_status("0", DownloadStatus::Completed);
    m.update_status("1", DownloadStatus::Downloading);
    let t = CancellationToken::new();
    m.register_cancellation_token("1".to_string(), t.clone());
    m.cancel_all();
    assert!(t.is_cancelled());
    assert_eq!(statuses(&m), vec!["completed", "cancelled", "cancelled"]);
    assert!(m.is_empty());
}

#[test]
fn clear_and_cancel_all_and_clear_empty_the_queue() {
    let mut m = DownloadQueueManager::new();
    let mut c = item_id_counter_start();
    m.add_item(item(DownloadType::Track("a".to_string()), "6"), &mut c);
    m.clear_queue();
    assert_eq!(m.get_items().len(), 0);
    m.add_item(item(DownloadType::Track("b".to_string()), "6"), &mut c);
    assert_eq!(m.get_items()[0].id, "1");
    let t = CancellationToken::new();
    m.register_cancellation_token("1".to_string(), t.clone());
    m.cancel_all_and_clear();
    assert!(t.is_cancelled());
    assert_eq!(m.get_items().len(), 0);
}

#[test]
fn update_metadata_sets_first_matching_item() {
    let mut m = DownloadQueueManager::new();
    let mut c = item_id_counter_start();
    m.add_item(item(DownloadType::Album("a".to_string()), "6"), &mut c);
    let md = DownloadMetadata {
        title: "Title".to_string(),
        artist: "Artist".to_string(),
        album: None,
        duration: None,
        release_year: Some("2020".to_string()),
        cover_url: None,
        track_count: Some(10),
    };
    m.update_metadata("0", Some(md));
    let got = m.get_items()[0].metadata.clone().unwrap();
    assert_eq!(got.title, "Title");
    assert_eq!(got.track_count, Some(10));
}

#[test]
fn downloading_flag() {
    let mut m = DownloadQueueManager::new();
    let mut c = item_id_counter_start();
    assert!(!m.is_downloading());
    m.set_downloading(true);
    assert!(m.is_downloading());
    m.set_downloading(false);
    assert!(!m.is_downloading());
}

#[test]
fn unregister_token_keeps_it_untriggered() {
    let mut m = DownloadQueueManager::new();
    let mut c = item_id_counter_start();
    m.add_item(item(DownloadType::Album("a".to_string()), "6"), &mut c);
    let t = CancellationToken::new();
    m.register_cancellation_token("0".to_string(), t.clone());
    m.unregister_cancellation_token("0");
    m.cancel_item("0");
    assert!(!t.is_cancelled());
    assert_eq!(statuses(&m), vec!["cancelled"]);
}

#[test]
fn start_and_finish_processing() {
    let mut m = DownloadQueueManager::new();
    let mut c = item_id_counter_start();
    assert_eq!(m.start_queue_processing(), None);
    m.add_item(item(DownloadType::Album("a".to_string()), "6"), &mut c);
    m.add_item(item(DownloadType::Album("b".to_string()), "6"), &mut c);
    assert_eq!(m.start_queue_processing(), Some("0".to_string()));
    assert!(m.is_downloading());
    assert_eq!(statuses(&m), vec!["downloading", "queued"]);
    let more = m.finish_download("0", Err("boom".to_string()));
    assert_eq!(statuses(&m), vec!["failed:boom", "queued"]);
    assert!(more);
    assert!(!m.is_downloading());
}

#[test]
fn queue_messages() {
    assert_eq!(added_to_queue_message(&DownloadType::Album("x".to_string())), "Album added to download queue");
    assert_eq!(added_to_queue_message(&DownloadType::Track("x".to_string())), "Track added to download queue");
}

#[test]
fn download_readiness() {
    assert_eq!(check_download_ready(false, "id", "s"), Err("Not authenticated. Please log in first."));
    assert_eq!(check_download_ready(true, "", "s"), Err("Invalid API credentials. Please log in again."));
    assert_eq!(check_download_ready(true, "id", ""), Err("Invalid API credentials. Please log in again."));
    assert_eq!(check_download_ready(true, "id", "s"), Ok(()));
}

#[test]
fn managers_sharing_a_counter_never_repeat_an_id() {
    let mut c = item_id_counter_start();
    assert_eq!(c, 0);
    let mut a = DownloadQueueManager::new();
    let mut b = DownloadQueueManager::new();
    a.add_item(item(DownloadType::Album("x".to_string()), "6"), &mut c);
    b.add_item(item(DownloadType::Album("y".to_string()), "6"), &mut c);
    a.add_item(item(DownloadType::Track("z".to_string()), "6"), &mut c);
    assert_eq!(a.get_items()[0].id, "0");
    assert_eq!(b.get_items()[0].id, "1");
    assert_eq!(a.get_items()[1].id, "2");
    assert_eq!(c, 3);
}

#[test]
fn finished_download_keeps_a_cancelled_item_cancelled() {
    let mut m = DownloadQueueManager::new();
    let mut c = item_id_counter_start();
    m.add_item(item(DownloadType::Album("a".to_string()), "6"), &mut c);
    assert_eq!(m.start_queue_processing(), Some("0".to_string()));
    m.cancel_item("0");
    let more = m.finish_download("0", Err("stopped".to_string()));
    assert!(!more);
    assert_eq!(statuses(&m), vec!["cancelled"]);
    m.add_item(item(DownloadType::Album("b".to_string()), "6"), &mut c);
    assert_eq!(m.start_queue_processing(), Some("1".to_string()));
    m.finish_download("1", Ok(()));
    assert_eq!(statuses(&m), vec!["cancelled", "completed"]);
    m.finish_download("1", Err("late".to_string()));
    assert_eq!(statuses(&m), vec!["cancelled", "completed"]);
}

#[test]
fn queue_rows_show_status_and_metadata() {
    let mut it = item(DownloadType::Track("t".to_string()), "6");
    let d = queue_row_display(&it);
    assert_eq!(d.title, "Loading metadata...");
    assert_eq!(d.subtitle, "");
    assert_eq!(d.status_text, "Queued");
    assert!(!d.show_progress);
    assert!(d.show_cancel);
    assert_eq!(d.cover_url, None);
    it.metadata = Some(DownloadMetadata {
        title: "Song".to_string(),
        artist: "Band".to_string(),
        album: Some("Record".to_string()),
        duration: Some(200),
        release_year: None,
        cover_url: Some("http://c/x.jpg".to_string()),
        track_count: None,
    });
    it.status = DownloadStatus::Downloading;
    let d = queue_row_display(&it);
    assert_eq!(d.title, "Song");
    assert_eq!(d.subtitle, "Band \u{2022} Record");
    assert_eq!(d.status_text, "Downloading...");
    assert!(d.show_progress);
    assert!(d.show_cancel);
    assert_eq!(d.cover_url, Some("http://c/x.jpg".to_string()));
    it.status = DownloadStatus::Failed("disk full".to_string());
    let d = queue_row_display(&it);
    assert_eq!(d.status_text, "Failed: disk full");
    assert!(!d.show_progress);
    assert!(!d.show_cancel);
    for (status, text) in [
        (DownloadStatus::Completed, "Completed"),
        (DownloadStatus::Cancelled, "Cancelled"),
    ] {
        it.status = status;
        let d = queue_row_display(&it);
        assert_eq!(d.status_text, text);
        assert!(!d.show_cancel);
    }
    if let Some(m) = it.metadata.as_mut() {
        m.album = None;
        m.cover_url = Some(String::new());
    }
    let d = queue_row_display(&it);
    assert_eq!(d.subtitle, "Band");
    assert_eq!(d.cover_url, None);
}
