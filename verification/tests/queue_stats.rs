use std::collections::HashSet;

use stt_bot::persistence::AuthorizedUsersData;
use stt_bot::queue::{get_queue_status, JobQueue, QueueClosed, QueueItem, QueueStatistics};
use stt_bot::worker::finish_job;

fn job(id: &str) -> QueueItem {
    QueueItem {
        id: id.to_string(),
        chat_id: 7,
        message_id: 100,
        reply_to_message_id: 99,
        file_data: vec![1, 2, 3],
        original_filename: "voice.ogg".to_string(),
        user_info: "@someone".to_string(),
        user_id: 42,
        username: Some("someone".to_string()),
    }
}

#[test]
fn fifo_order_of_three_concurrent_submissions() {
    let mut queue = JobQueue::new();
    let mut stats = QueueStatistics::new();

    for (i, id) in ["J1", "J2", "J3"].iter().enumerate() {
        let position = queue.enqueue(job(id)).unwrap();
        stats.increment_queued();
        assert_eq!(position, (i as u64) + 1);
        assert_eq!(stats.current_queue_size, (i as u64) + 1);
    }

    let mut seen = Vec::new();
    let mut last_size = stats.current_queue_size;
    while let Some(item) = queue.dequeue() {
        stats.set_processing(item.id.clone());
        assert_eq!(stats.processing_item_id.as_deref(), Some(item.id.as_str()));
        seen.push(item.id.clone());
        finish_job(&mut stats, true);
        assert!(stats.processing_item_id.is_none());
        assert_eq!(stats.current_queue_size, last_size - 1);
        last_size = stats.current_queue_size;
    }

    assert_eq!(seen, vec!["J1", "J2", "J3"]);
    assert_eq!(stats.total_processed + stats.total_failed, 3);
    assert_eq!(stats.current_queue_size, 0);
}

#[test]
fn queue_size_invariant_holds_at_every_step() {
    let mut stats = QueueStatistics::new();
    let check = |s: &QueueStatistics| {
        assert_eq!(s.current_queue_size, s.total_queued - s.total_processed - s.total_failed);
    };
    check(&stats);
    stats.increment_queued();
    check(&stats);
    stats.increment_queued();
    check(&stats);
    stats.set_processing("a".to_string());
    check(&stats);
    stats.increment_processed();
    check(&stats);
    stats.set_processing("b".to_string());
    stats.increment_failed();
    check(&stats);
    assert_eq!(stats.total_queued, 2);
    assert_eq!(stats.total_processed, 1);
    assert_eq!(stats.total_failed, 1);
}

#[test]
fn queue_size_decrement_saturates_at_zero() {
    let mut stats = QueueStatistics::new();
    stats.increment_processed();
    assert_eq!(stats.current_queue_size, 0);
    stats.increment_failed();
    assert_eq!(stats.current_queue_size, 0);
    stats.decrement_queue_size();
    assert_eq!(stats.current_queue_size, 0);
}

#[test]
fn exactly_one_completion_increment_per_job() {
    let mut stats = QueueStatistics::new();
    stats.increment_queued();
    stats.set_processing("job-a".to_string());
    assert!(stats.processing_item_id.is_some());
    finish_job(&mut stats, true);
    assert_eq!((stats.total_processed, stats.total_failed), (1, 0));
    assert!(stats.processing_item_id.is_none());

    stats.increment_queued();
    stats.set_processing("job-b".to_string());
    finish_job(&mut stats, false);
    assert_eq!((stats.total_processed, stats.total_failed), (1, 1));
    assert!(stats.processing_item_id.is_none());
}

#[test]
fn producer_compensates_when_queue_closed_between_accept_and_send() {
    let mut queue = JobQueue::new();
    let mut stats = QueueStatistics::new();
    queue.close();
    stats.increment_queued();
    let result = queue.enqueue(job("J9"));
    assert_eq!(result, Err(QueueClosed));
    stats.decrement_queue_size();
    assert_eq!(stats.current_queue_size, 0);
    assert_eq!(stats.total_queued, 1);
}

#[test]
fn enqueue_fails_only_on_closure_never_on_full() {
    let mut queue = JobQueue::new();
    for i in 0..100u64 {
        assert_eq!(queue.enqueue(job(&format!("J{i}"))).unwrap(), i + 1);
    }
    queue.close();
    assert!(queue.enqueue(job("late")).is_err());
    assert_eq!(queue.len(), 100);
}

#[test]
fn status_render_is_idempotent() {
    let snapshot = QueueStatistics {
        total_queued: 5,
        total_processed: 2,
        total_failed: 1,
        current_queue_size: 2,
        processing_item_id: Some("abcdef12-3456-7890-abcd-ef1234567890".to_string()),
    };
    let first = get_queue_status(&snapshot);
    let second = get_queue_status(&snapshot);
    assert_eq!(first, second);
    assert_eq!(
        first,
        "\u{1F504} *Queue Status:*\n\u{1F4CA} Current queue size: 2\n\u{2699}\u{FE0F} Status: Currently processing: abcdef12\n\u{2705} Total processed: 2\n\u{274C} Total failed: 1\n\u{1F4E5} Total queued: 5"
    );
}

#[test]
fn status_render_idle_when_nothing_in_flight() {
    let snapshot = QueueStatistics::new();
    let text = get_queue_status(&snapshot);
    assert!(text.contains("Status: Idle"));
    assert!(text.contains("Current queue size: 0"));
}

#[test]
fn queue_item_new_assigns_unique_36_char_id() {
    let a = QueueItem::new(
        1,
        2,
        3,
        vec![9],
        "a.ogg".to_string(),
        "@u".to_string(),
        5,
        None,
    );
    let b = QueueItem::new(
        1,
        2,
        3,
        vec![9],
        "a.ogg".to_string(),
        "@u".to_string(),
        5,
        None,
    );
    assert_eq!(a.id.len(), 36);
    assert_eq!(a.id.as_bytes()[8], b'-');
    assert_eq!(a.id.as_bytes()[13], b'-');
    assert_ne!(a.id, b.id);
    assert_eq!(a.original_filename, "a.ogg");
    assert_eq!(a.user_id, 5);
}

#[test]
fn test_authorized_users_data_conversion() {
    let mut user_ids: HashSet<u64> = HashSet::new();
    user_ids.insert(123456789);
    user_ids.insert(987654321);

    let data = AuthorizedUsersData::from_user_ids(user_ids.clone());
    let converted_back = data.to_user_ids();

    assert_eq!(user_ids, converted_back);
}

#[test]
fn authorized_users_contains_and_insert() {
    let mut data = AuthorizedUsersData::new();
    assert!(!data.contains(7));
    data.insert(7);
    assert!(data.contains(7));
    assert!(!data.contains(8));
}
