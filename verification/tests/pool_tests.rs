use httpd_core::pool::{Directive, Pool};

#[test]
fn a_new_pool_is_idle() {
    let pool: Pool<u32> = Pool::new(4);
    assert_eq!(pool.size(), 4);
    assert_eq!(pool.pending(), 0);
    assert_eq!(pool.running(), 0);
    assert!(!pool.is_closing());
    assert!(!pool.is_finished());
}

#[test]
fn twice_as_many_jobs_as_workers() {
    let n = 4usize;
    let mut pool: Pool<usize> = Pool::new(n);
    for job in 0..2 * n {
        assert_eq!(pool.submit(job), Ok(()));
    }
    assert_eq!(pool.pending(), 2 * n);
    assert_eq!(pool.running(), 0);

    let mut started = Vec::new();
    for worker in 0..n {
        match pool.next(worker) {
            Directive::Run(job) => started.push(job),
            other => panic!("worker {} got {:?}", worker, other),
        }
        assert_eq!(pool.running(), worker + 1);
    }
    assert_eq!(started, vec![0, 1, 2, 3]);
    assert_eq!(pool.running(), n);
    assert_eq!(pool.pending(), n);

    for worker in (0..n).rev() {
        match pool.next(worker) {
            Directive::Run(job) => started.push(job),
            other => panic!("worker {} got {:?}", worker, other),
        }
        assert_eq!(pool.running(), n);
    }
    assert_eq!(started, vec![0, 1, 2, 3, 4, 5, 6, 7]);
    assert_eq!(pool.pending(), 0);

    for worker in 0..n {
        assert_eq!(pool.next(worker), Directive::Wait);
        assert_eq!(pool.running(), n - worker - 1);
    }
    assert_eq!(pool.running(), 0);
}

#[test]
fn a_waiting_worker_takes_the_next_submission() {
    let mut pool: Pool<&str> = Pool::new(2);
    assert_eq!(pool.next(1), Directive::Wait);
    assert_eq!(pool.submit("a"), Ok(()));
    assert_eq!(pool.submit("b"), Ok(()));
    assert_eq!(pool.submit("c"), Ok(()));
    assert_eq!(pool.next(1), Directive::Run("a"));
    assert_eq!(pool.next(1), Directive::Run("b"));
    assert_eq!(pool.next(0), Directive::Run("c"));
    assert_eq!(pool.running(), 2);
    assert_eq!(pool.next(0), Directive::Wait);
    assert_eq!(pool.running(), 1);
}

#[test]
fn shutdown_drains_the_queue_before_the_workers_exit() {
    let mut pool: Pool<u8> = Pool::new(2);
    assert_eq!(pool.submit(1), Ok(()));
    assert_eq!(pool.submit(2), Ok(()));
    assert_eq!(pool.submit(3), Ok(()));
    pool.shutdown();
    assert!(pool.is_closing());
    assert_eq!(pool.submit(4), Err(4));
    assert_eq!(pool.pending(), 3);
    assert_eq!(pool.next(0), Directive::Run(1));
    assert_eq!(pool.next(1), Directive::Run(2));
    assert_eq!(pool.next(0), Directive::Run(3));
    assert!(!pool.is_finished());
    assert_eq!(pool.next(1), Directive::Exit);
    assert!(!pool.is_finished());
    assert_eq!(pool.next(0), Directive::Exit);
    assert!(pool.is_finished());
    assert_eq!(pool.running(), 0);
    assert_eq!(pool.next(0), Directive::Exit);
}

#[test]
fn an_unknown_worker_is_told_to_exit() {
    let mut pool: Pool<u8> = Pool::new(1);
    assert_eq!(pool.submit(9), Ok(()));
    assert_eq!(pool.next(1), Directive::Exit);
    assert_eq!(pool.next(usize::MAX), Directive::Exit);
    assert_eq!(pool.pending(), 1);
    assert_eq!(pool.next(0), Directive::Run(9));
}

#[test]
fn twice_as_many_jobs_as_workers_for_every_size() {
    for n in 1..=16usize {
        let mut pool: Pool<usize> = Pool::new(n);
        for job in 0..2 * n {
            assert_eq!(pool.submit(job), Ok(()));
            assert_eq!(pool.running(), 0);
        }
        // Each worker asks once, the odd ones first.
        let order: Vec<usize> = (0..n).filter(|w| w % 2 == 1).chain((0..n).filter(|w| w % 2 == 0)).collect();
        for (i, worker) in order.iter().enumerate() {
            assert_eq!(pool.next(*worker), Directive::Run(i));
            assert!(pool.running() <= n);
        }
        assert_eq!(pool.running(), n);
        assert_eq!(pool.pending(), n);
        // The workers come back in another order and take the rest.
        for (i, worker) in order.iter().rev().enumerate() {
            assert_eq!(pool.next(*worker), Directive::Run(n + i));
            assert_eq!(pool.running(), n);
        }
        assert_eq!(pool.pending(), 0);
        for worker in 0..n {
            assert_eq!(pool.next(worker), Directive::Wait);
        }
        assert_eq!(pool.running(), 0);
    }
}

#[test]
fn one_worker_takes_every_job_in_turn() {
    let mut pool: Pool<u32> = Pool::new(3);
    for job in 0..10 {
        assert_eq!(pool.submit(job), Ok(()));
    }
    for job in 0..10 {
        assert_eq!(pool.next(2), Directive::Run(job));
        assert_eq!(pool.running(), 1);
    }
    assert_eq!(pool.next(2), Directive::Wait);
}
