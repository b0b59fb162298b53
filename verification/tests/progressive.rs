//! The progressive coordinator: polling, flushing, invalidation, and the
//! work pool.

use std::sync::mpsc;

use raytrace::progress::{
    build_work_pool, shuffle_pool, RenderChunk, RenderProgress, ThreadProgress,
};
use raytrace::rng::Rand64;

fn fresh_progress(
    workers: usize,
    remaining: usize,
) -> (
    RenderProgress,
    mpsc::Sender<RenderChunk>,
    mpsc::Sender<(usize, ThreadProgress)>,
    mpsc::Receiver<()>,
) {
    let (progress_tx, progress_rx) = mpsc::channel();
    let (thread_tx, thread_rx) = mpsc::channel();
    let (term_tx, term_rx) = mpsc::channel();
    let p = RenderProgress::new(workers, remaining, progress_rx, thread_rx, vec![term_tx]);
    (p, progress_tx, thread_tx, term_rx)
}

/// Completed chunks land at their linear indices; flushing again with no
/// new chunks is a no-op.
#[test]
fn flush_is_incremental_and_idempotent() {
    let (mut p, progress_tx, _thread_tx, _term_rx) = fresh_progress(1, 4);
    progress_tx.send(RenderChunk { start: 1, pixels: vec![7, 8] }).unwrap();

    let mut buffer = vec![0u32; 4];
    let _ = p.flush_to_buffer(&mut buffer);
    assert_eq!(buffer, vec![0, 7, 8, 0]);

    // nothing new completed: the second flush changes nothing
    let snapshot = buffer.clone();
    let _ = p.flush_to_buffer(&mut buffer);
    assert_eq!(buffer, snapshot);

    // later chunks refine the same buffer incrementally
    progress_tx.send(RenderChunk { start: 0, pixels: vec![9] }).unwrap();
    let _ = p.flush_to_buffer(&mut buffer);
    assert_eq!(buffer, vec![9, 7, 8, 0]);
}

/// Invalidating before any flush leaves the output buffer entirely
/// untouched by that frame's workers, and signals every terminate channel.
#[test]
fn invalidation_abandons_the_frame() {
    let (mut p, progress_tx, _thread_tx, term_rx) = fresh_progress(1, 4);
    progress_tx.send(RenderChunk { start: 0, pixels: vec![1, 2, 3, 4] }).unwrap();

    p.invalidate();
    let mut buffer = vec![0u32; 4];
    let _ = p.flush_to_buffer(&mut buffer);
    assert_eq!(buffer, vec![0, 0, 0, 0]);
    assert!(p.poll_done().0);
    assert_eq!(term_rx.try_recv(), Ok(()));
}

/// The renderer never writes at or beyond the buffer's length, whatever a
/// chunk claims.
#[test]
fn flush_never_writes_outside_the_buffer() {
    let (mut p, progress_tx, _thread_tx, _term_rx) = fresh_progress(1, 4);
    progress_tx.send(RenderChunk { start: 3, pixels: vec![5, 6, 7] }).unwrap();
    progress_tx.send(RenderChunk { start: 100, pixels: vec![8] }).unwrap();

    let mut buffer = vec![0u32; 4];
    let _ = p.flush_to_buffer(&mut buffer);
    assert_eq!(buffer, vec![0, 0, 0, 5]);
    assert_eq!(buffer.len(), 4);
}

/// `poll_done` reflects the worker status table: done once no worker is
/// still active, out-of-range worker ids are ignored.
#[test]
fn poll_done_tracks_worker_states() {
    let (mut p, _progress_tx, thread_tx, _term_rx) = fresh_progress(2, 4);
    assert!(!p.poll_done().0);

    thread_tx.send((0, ThreadProgress::Done)).unwrap();
    thread_tx.send((5, ThreadProgress::Done)).unwrap();
    assert!(!p.poll_done().0);

    thread_tx.send((1, ThreadProgress::Terminated)).unwrap();
    assert!(p.poll_done().0);
}

/// Once every worker has settled, later polls keep reporting done: the
/// terminal states are absorbing and no worker reports twice.
#[test]
fn completed_poll_stays_done() {
    let (mut p, _progress_tx, thread_tx, _term_rx) = fresh_progress(2, 4);
    thread_tx.send((0, ThreadProgress::Done)).unwrap();
    thread_tx.send((1, ThreadProgress::Done)).unwrap();
    assert!(p.poll_done().0);
    assert!(p.poll_done().0);
    assert!(p.poll_done().0);
}

/// A default coordinator has no frame in flight: polling reports done and
/// flushing copies nothing.
#[test]
fn default_coordinator_is_idle() {
    let mut p = RenderProgress::default();
    assert!(p.poll_done().0);
    let mut buffer = vec![3u32; 2];
    let _ = p.flush_to_buffer(&mut buffer);
    assert_eq!(buffer, vec![3, 3]);
}

/// The work pool covers the frame in fixed-size units, in order.
#[test]
fn work_pool_covers_the_frame() {
    let pool = build_work_pool(3, 2);
    assert_eq!(pool.len(), 6);
    for (i, unit) in pool.iter().enumerate() {
        assert_eq!(*unit, (i, i + 1));
    }
    assert!(build_work_pool(0, 5).is_empty());
}

/// Shuffling the pool permutes it: same units, any order.
#[test]
fn shuffling_keeps_every_unit() {
    let mut pool = build_work_pool(4, 4);
    let original = pool.clone();
    let mut rng = Rand64::from_seed(9);
    shuffle_pool(&mut pool, &mut rng);
    assert_eq!(pool.len(), original.len());
    let mut sorted = pool.clone();
    sorted.sort();
    assert_eq!(sorted, original);
}
