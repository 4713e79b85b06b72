use std::sync::Arc;

use fetcher_bot::queue::{
    new_download_queue, parse_max_concurrent_downloads, register_waiting_download,
    release_waiting_download, request_download, Admission,
};
use tokio::sync::TryAcquireError;

#[test]
fn download_queue_limits_concurrency() {
    let queue = new_download_queue(2);
    let first = Arc::clone(&queue.semaphore).try_acquire_owned().unwrap();
    let second = Arc::clone(&queue.semaphore).try_acquire_owned().unwrap();

    assert!(matches!(
        Arc::clone(&queue.semaphore).try_acquire_owned(),
        Err(TryAcquireError::NoPermits)
    ));

    drop(first);
    assert!(Arc::clone(&queue.semaphore).try_acquire_owned().is_ok());
    drop(second);
}

#[test]
fn parses_positive_max_concurrent_downloads() {
    assert_eq!(parse_max_concurrent_downloads("1"), Ok(1));
    assert_eq!(parse_max_concurrent_downloads("4"), Ok(4));
    assert!(parse_max_concurrent_downloads("0").is_err());
    assert!(parse_max_concurrent_downloads("invalid").is_err());
}

#[test]
fn waiting_position_is_released_when_waiter_is_dropped() {
    let mut queue = new_download_queue(2);
    let first_position = register_waiting_download(&mut queue);
    let second_position = register_waiting_download(&mut queue);

    assert_eq!(first_position, 1);
    assert_eq!(second_position, 2);

    release_waiting_download(&mut queue);
    let replacement_position = register_waiting_download(&mut queue);
    assert_eq!(replacement_position, 2);
}

#[test]
fn download_queue_admits_waiters_in_fifo_order() {
    let runtime = tokio::runtime::Builder::new_current_thread().build().unwrap();
    runtime.block_on(async {
        let queue = new_download_queue(1);
        let active = Arc::clone(&queue.semaphore).acquire_owned().await.unwrap();
        let (tx, mut rx) = tokio::sync::mpsc::unbounded_channel();

        let first_semaphore = Arc::clone(&queue.semaphore);
        let first_tx = tx.clone();
        let first = tokio::spawn(async move {
            let _permit = first_semaphore.acquire_owned().await.unwrap();
            first_tx.send(1).unwrap();
        });
        tokio::task::yield_now().await;

        let second_semaphore = Arc::clone(&queue.semaphore);
        let second = tokio::spawn(async move {
            let _permit = second_semaphore.acquire_owned().await.unwrap();
            tx.send(2).unwrap();
        });
        tokio::task::yield_now().await;

        drop(active);

        assert_eq!(rx.recv().await, Some(1));
        assert_eq!(rx.recv().await, Some(2));
        first.await.unwrap();
        second.await.unwrap();
    });
}

#[test]
fn a_wrong_limit_is_explained() {
    for text in ["", "+", "-", "-1", "x", "12x", " 1", "1 ", "99999999999999999999999999", "9x9"] {
        let reason = text.parse::<usize>().unwrap_err();
        assert_eq!(
            parse_max_concurrent_downloads(text),
            Err(format!("must be a positive integer: {reason}"))
        );
    }
    for text in ["0", "+0", "000"] {
        assert_eq!(
            parse_max_concurrent_downloads(text),
            Err("must be greater than zero".to_string())
        );
    }
    assert_eq!(parse_max_concurrent_downloads("+7"), Ok(7));
    assert_eq!(parse_max_concurrent_downloads("0012"), Ok(12));
    assert_eq!(parse_max_concurrent_downloads(&usize::MAX.to_string()), Ok(usize::MAX));
    let beyond = (usize::MAX as u128 + 1).to_string();
    assert!(parse_max_concurrent_downloads(&beyond).is_err());
}

#[test]
fn downloads_beyond_the_limit_wait_in_line() {
    let mut queue = new_download_queue(1);
    let running = match request_download(&mut queue) {
        Admission::Start(permit) => permit,
        _ => panic!("a permit is free"),
    };
    assert_eq!(queue.waiting, 0);
    for place in 1..=3 {
        match request_download(&mut queue) {
            Admission::Wait { position, text } => {
                assert_eq!(position, place);
                assert_eq!(text, format!("Queued… Position: {place}"));
            }
            _ => panic!("no permit is free"),
        }
    }
    assert_eq!(queue.waiting, 3);
    drop(running);
    assert!(matches!(request_download(&mut queue), Admission::Start(_)));
    assert_eq!(queue.waiting, 3);
}

#[test]
fn a_closed_queue_admits_nothing() {
    let mut queue = new_download_queue(1);
    queue.semaphore.close();
    assert!(matches!(request_download(&mut queue), Admission::Closed));
    assert_eq!(queue.waiting, 0);
}

#[test]
fn a_permit_belongs_to_its_queue() {
    let mut queue = new_download_queue(3);
    match request_download(&mut queue) {
        Admission::Start(permit) => {
            assert!(Arc::ptr_eq(permit.semaphore(), &queue.semaphore));
            assert_eq!(queue.semaphore.available_permits(), 2);
        }
        _ => panic!("a permit is free"),
    }
    assert_eq!(queue.semaphore.available_permits(), 3);
}
