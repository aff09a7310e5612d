use utils_multiproc::pool::{is_valid_size, Received, ThreadPool};

fn drain_one(pool: &mut ThreadPool<&'static str>, id: usize) -> Option<&'static str> {
    match pool.receive(id) {
        Received::Job(j) => Some(j),
        _ => None,
    }
}

#[test]
fn sizes_accepted_by_new() {
    assert!(!is_valid_size(0));
    assert!(is_valid_size(1));
    assert!(is_valid_size(63));
    assert!(!is_valid_size(64));
    assert!(!is_valid_size(usize::MAX));
}

#[test]
fn fresh_pool_has_size_workers_and_accepts_jobs() {
    for n in 1..64usize {
        let mut pool: ThreadPool<usize> = ThreadPool::new(n);
        assert_eq!(pool.size(), n);
        assert!(pool.has_running_worker());
        for k in 0..n {
            assert!(pool.execute(k).is_ok());
        }
        let order = pool.begin_shutdown();
        assert_eq!(order, (0..n).collect::<Vec<usize>>());
    }
}

#[test]
fn jobs_come_out_once_in_order() {
    let mut pool: ThreadPool<u32> = ThreadPool::new(3);
    for k in 0..10u32 {
        assert!(pool.execute(k).is_ok());
    }
    let mut seen = Vec::new();
    let mut id = 0usize;
    loop {
        match pool.receive(id % 3) {
            Received::Job(j) => seen.push(j),
            Received::Empty => break,
            _ => panic!("no worker was told to stop"),
        }
        id += 1;
    }
    assert_eq!(seen, (0..10u32).collect::<Vec<u32>>());
    assert!(matches!(pool.receive(0), Received::Empty));
}

#[test]
fn every_job_runs_on_a_worker_before_shutdown_ends() {
    let n = 4usize;
    let mut pool: ThreadPool<usize> = ThreadPool::new(n);
    let jobs = 25usize;
    for k in 0..jobs {
        assert!(pool.execute(k).is_ok());
    }
    let order = pool.begin_shutdown();
    let mut ran: Vec<(usize, usize)> = Vec::new();
    let mut stopped = vec![false; n];
    let mut turn = 0usize;
    while stopped.iter().any(|s| !s) {
        let id = order[turn % n];
        turn += 1;
        if stopped[id] {
            continue;
        }
        match pool.receive(id) {
            Received::Job(k) => ran.push((k, id)),
            Received::Terminate => stopped[id] = true,
            Received::Empty | Received::Disconnected => panic!("a running worker waited in shutdown"),
        }
    }
    assert!(!pool.has_running_worker());
    assert!(ran.iter().all(|&(_, id)| id < n));
    let mut indices: Vec<usize> = ran.iter().map(|&(k, _)| k).collect();
    indices.sort();
    assert_eq!(indices, (0..jobs).collect::<Vec<usize>>());
}

#[test]
fn shutdown_with_all_workers_busy_still_signals_each() {
    let mut pool: ThreadPool<&'static str> = ThreadPool::new(2);
    assert!(pool.execute("long-a").is_ok());
    assert!(pool.execute("long-b").is_ok());
    assert_eq!(drain_one(&mut pool, 0), Some("long-a"));
    assert_eq!(drain_one(&mut pool, 1), Some("long-b"));
    pool.begin_shutdown();
    assert!(matches!(pool.receive(1), Received::Terminate));
    assert!(matches!(pool.receive(0), Received::Terminate));
    assert!(!pool.has_running_worker());
}

#[test]
fn panicked_worker_does_not_block_the_rest() {
    let mut pool: ThreadPool<&'static str> = ThreadPool::new(3);
    for j in ["ok-1", "poison", "ok-2", "ok-3"] {
        assert!(pool.execute(j).is_ok());
    }
    assert_eq!(drain_one(&mut pool, 0), Some("ok-1"));
    assert_eq!(drain_one(&mut pool, 1), Some("poison"));
    pool.retire(1);
    assert_eq!(drain_one(&mut pool, 2), Some("ok-2"));
    assert_eq!(drain_one(&mut pool, 0), Some("ok-3"));
    let order = pool.begin_shutdown();
    assert_eq!(order, vec![0, 1, 2]);
    assert!(matches!(pool.receive(0), Received::Terminate));
    assert!(matches!(pool.receive(2), Received::Terminate));
    assert!(!pool.has_running_worker());
    // The signal meant for the panicked worker is left over, never awaited.
    assert!(matches!(pool.execute("late"), Err("late")));
}

#[test]
fn three_jobs_on_two_workers() {
    let mut pool: ThreadPool<&'static str> = ThreadPool::new(2);
    for j in ["A", "B", "C"] {
        assert!(pool.execute(j).is_ok());
    }
    let mut log = Vec::new();
    // Both workers start at once; the third job waits for the first free one.
    log.push(drain_one(&mut pool, 0).unwrap());
    log.push(drain_one(&mut pool, 1).unwrap());
    log.push(drain_one(&mut pool, 0).unwrap());
    pool.begin_shutdown();
    assert!(matches!(pool.receive(0), Received::Terminate));
    assert!(matches!(pool.receive(1), Received::Terminate));
    log.sort();
    assert_eq!(log, vec!["A", "B", "C"]);
}

#[test]
fn closed_queue_disconnects_idle_worker() {
    let mut pool: ThreadPool<u8> = ThreadPool::new(2);
    assert!(pool.execute(1).is_ok());
    pool.close();
    assert!(matches!(pool.execute(2), Err(2)));
    assert!(matches!(pool.receive(0), Received::Job(1)));
    assert!(matches!(pool.receive(0), Received::Disconnected));
    assert!(pool.has_running_worker());
    assert!(matches!(pool.receive(1), Received::Disconnected));
    assert!(!pool.has_running_worker());
}
