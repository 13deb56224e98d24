use sshcore::error::SessionError;
use sshcore::events::SftpDownloadEvent;
use sshcore::transfer::{progress_percent, DownloadProgress, TaskTable, CHUNK_SIZE};

fn progress_of(events: &[SftpDownloadEvent]) -> Vec<u32> {
    events
        .iter()
        .filter_map(|e| match e {
            SftpDownloadEvent::Process { val } => Some(*val),
            _ => None,
        })
        .collect()
}

#[test]
fn percent_values() {
    assert_eq!(progress_percent(1, 3), 33);
    assert_eq!(progress_percent(2, 3), 66);
    assert_eq!(progress_percent(3, 3), 100);
    assert_eq!(progress_percent(0, 0), 0);
    assert_eq!(progress_percent(5, 0), 100);
    assert_eq!(progress_percent(200, 100), 100);
    assert_eq!(progress_percent(u64::MAX, u64::MAX), 100);
    assert_eq!(progress_percent(u64::MAX / 2, u64::MAX), 49);
}

#[test]
fn chunked_download_progress() {
    let size: usize = 100_000;
    let mut p = DownloadProgress::new(size as u64);
    let mut all = Vec::new();
    let mut sent = 0;
    while sent < size {
        let n = CHUNK_SIZE.min(size - sent);
        all.extend(p.on_chunk(vec![0u8; n]));
        sent += n;
    }
    all.extend(p.on_eof());
    assert_eq!(progress_of(&all), vec![32, 65, 98, 100, 100]);
    let k = all.len();
    assert_eq!(all[k - 2], SftpDownloadEvent::Process { val: 100 });
    assert_eq!(all[k - 1], SftpDownloadEvent::Finished);
    let chunks = all.iter().filter(|e| matches!(e, SftpDownloadEvent::Chunk { .. })).count();
    assert_eq!(chunks, 4);
}

#[test]
fn small_chunks_deduplicate_progress() {
    let mut p = DownloadProgress::new(1000);
    let first = p.on_chunk(vec![1; 5]);
    assert_eq!(first, vec![SftpDownloadEvent::Chunk { data: vec![1; 5] }]);
    let second = p.on_chunk(vec![2; 5]);
    assert_eq!(
        second,
        vec![SftpDownloadEvent::Chunk { data: vec![2; 5] }, SftpDownloadEvent::Process { val: 1 }]
    );
    let third = p.on_chunk(vec![3; 1]);
    assert_eq!(third.len(), 1);
}

#[test]
fn empty_file_finishes_at_100() {
    let mut p = DownloadProgress::new(0);
    assert_eq!(
        p.on_eof(),
        vec![SftpDownloadEvent::Process { val: 100 }, SftpDownloadEvent::Finished]
    );
    assert!(p.on_eof().is_empty());
    assert!(p.on_chunk(vec![1]).is_empty());
}

#[test]
fn cancel_yields_one_event_then_nothing() {
    let mut p = DownloadProgress::new(100);
    assert_eq!(p.on_chunk(vec![0; 10]).len(), 2);
    assert_eq!(p.on_cancel(), vec![SftpDownloadEvent::Cancelled]);
    assert!(!p.is_running());
    assert!(p.on_chunk(vec![0; 10]).is_empty());
    assert!(p.on_eof().is_empty());
    assert!(p.on_cancel().is_empty());
}

#[test]
fn cancel_unknown_task_is_not_found() {
    let mut t: TaskTable<u8> = TaskTable::new();
    assert_eq!(t.cancel(&"none".to_string()), Err(SessionError::TaskNotFound));
    let id = "task".to_string();
    assert_eq!(t.register(id.clone(), 3), None);
    assert!(t.contains(&id));
    assert_eq!(t.cancel(&id), Ok(3));
    assert_eq!(t.cancel(&id), Err(SessionError::TaskNotFound));
}

#[test]
fn finished_task_leaves_table() {
    let mut t: TaskTable<u8> = TaskTable::new();
    let id = "task".to_string();
    t.register(id.clone(), 1);
    assert_eq!(t.finish(&id), Some(1));
    assert!(!t.contains(&id));
    assert_eq!(t.finish(&id), None);
}
