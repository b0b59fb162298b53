//! The progressive concurrent renderer's coordinator.
//!
//! A frame is partitioned into fixed-size work units that worker threads
//! (run by the embedding program) pull from a shared pool; completed units
//! stream back over a channel.  [`RenderProgress`] owns the receiving ends
//! and exposes the poll / flush / invalidate protocol: `poll_done` drains
//! worker-status messages and reports completion, `invalidate` aborts the
//! frame cooperatively, and `flush_to_buffer` copies every already-completed
//! unit into the caller's pixel buffer without blocking.

use vstd::prelude::*;
use vstd::seq_lib::group_to_multiset_ensures;

use crate::rng::Rand64;

verus! {

broadcast use group_to_multiset_ensures;

/// Specifies the number of pixels per work unit.  One pixel per unit keeps
/// cancellation latency minimal (and makes the progressive fill look cool).
pub const CHUNK_SIZE: usize = 1;

/// A worker's lifecycle state; `Done` and `Terminated` are absorbing.
#[derive(Clone, Copy, Debug, PartialEq, Eq, Structural)]
pub enum ThreadProgress {
    /// Doing work.
    Active,
    /// Finished work successfully (drained the pool).
    Done,
    /// Observed the terminate signal or a broken channel.
    Terminated,
}

/// A completed work unit: the linear index its pixels start at, and the
/// pixels themselves.
#[derive(Clone, Debug)]
pub struct RenderChunk {
    pub start: usize,
    pub pixels: Vec<u32>,
}

/// The declared receiving end of a standard multi-producer channel.
#[verifier::external_type_specification]
#[verifier::external_body]
#[verifier::reject_recursive_types(T)]
pub struct ExReceiver<T>(std::sync::mpsc::Receiver<T>);

/// The declared sending end of a standard multi-producer channel.
#[verifier::external_type_specification]
#[verifier::external_body]
#[verifier::reject_recursive_types(T)]
pub struct ExSender<T>(std::sync::mpsc::Sender<T>);

/// Relies on `std::sync::mpsc::Receiver::try_recv`: non-blocking; hands back
/// a pending message if one is ready.  Which messages arrive, and when,
/// depends on the sending threads, so nothing is promised about the result.
#[verifier::external_body]
fn try_recv_any<T>(rx: &std::sync::mpsc::Receiver<T>) -> (r: Option<T>) {
    match rx.try_recv() {
        Ok(v) => Some(v),
        Err(_) => None,
    }
}

/// Relies on `std::sync::mpsc::Sender::send`: delivers unless the receiver
/// is gone; either way the call returns, and nothing is promised about the
/// outcome (a failed signal only means the peer already finished).
#[verifier::external_body]
fn send_any<T>(tx: &std::sync::mpsc::Sender<T>, value: T) -> (ok: bool) {
    tx.send(value).is_ok()
}

/// One chunk applied to a buffer: pixel `start + k` takes the chunk's
/// `k`-th value; positions outside the buffer are dropped, so applying a
/// chunk never grows the buffer and never touches an index at or beyond its
/// length.
pub open spec fn s_apply_chunk(buf: Seq<u32>, c: RenderChunk) -> Seq<u32> {
    Seq::new(
        buf.len(),
        |j: int|
            if c.start <= j < c.start + c.pixels@.len() {
                c.pixels@[j - c.start]
            } else {
                buf[j]
            },
    )
}

/// A sequence of chunks applied in order.
pub open spec fn s_apply_chunks(buf: Seq<u32>, cs: Seq<RenderChunk>) -> Seq<u32>
    decreases cs.len(),
{
    if cs.len() == 0 {
        buf
    } else {
        s_apply_chunks(s_apply_chunk(buf, cs[0]), cs.drop_first())
    }
}

/// Flushing with no newly completed chunks is a no-op: the buffer comes
/// back exactly as it was.
pub proof fn lemma_apply_no_chunks(buf: Seq<u32>)
    ensures
        s_apply_chunks(buf, Seq::empty()) == buf,
{
}

/// Applying chunks preserves the buffer's length: no flush ever writes past
/// the buffer, whatever the chunks claim.
pub proof fn lemma_apply_chunks_len(buf: Seq<u32>, cs: Seq<RenderChunk>)
    ensures
        s_apply_chunks(buf, cs).len() == buf.len(),
    decreases cs.len(),
{
    if cs.len() > 0 {
        lemma_apply_chunks_len(s_apply_chunk(buf, cs[0]), cs.drop_first());
    }
}

/// A batch of worker status updates applied to the status table in arrival
/// order; an update naming a worker outside the table is ignored.
pub open spec fn s_apply_updates(
    table: Seq<ThreadProgress>,
    us: Seq<(usize, ThreadProgress)>,
) -> Seq<ThreadProgress>
    decreases us.len(),
{
    if us.len() == 0 {
        table
    } else {
        let stepped = if (us[0].0 as int) < table.len() {
            table.update(us[0].0 as int, us[0].1)
        } else {
            table
        };
        s_apply_updates(stepped, us.drop_first())
    }
}

/// Applying updates never changes the table's size.
pub proof fn lemma_apply_updates_len(table: Seq<ThreadProgress>, us: Seq<(usize, ThreadProgress)>)
    ensures
        s_apply_updates(table, us).len() == table.len(),
    decreases us.len(),
{
    if us.len() > 0 {
        let stepped = if (us[0].0 as int) < table.len() {
            table.update(us[0].0 as int, us[0].1)
        } else {
            table
        };
        lemma_apply_updates_len(stepped, us.drop_first());
    }
}

/// Appending one update to a batch is the same as applying the batch and
/// then that update.
pub proof fn lemma_apply_updates_snoc(
    table: Seq<ThreadProgress>,
    us: Seq<(usize, ThreadProgress)>,
    u: (usize, ThreadProgress),
)
    ensures
        s_apply_updates(table, us.push(u)) == (if (u.0 as int) < s_apply_updates(
            table,
            us,
        ).len() {
            s_apply_updates(table, us).update(u.0 as int, u.1)
        } else {
            s_apply_updates(table, us)
        }),
    decreases us.len(),
{
    if us.len() == 0 {
        assert(us.push(u)[0] == u);
        assert(us.push(u).drop_first() =~= Seq::<(usize, ThreadProgress)>::empty());
        let stepped = if (u.0 as int) < table.len() {
            table.update(u.0 as int, u.1)
        } else {
            table
        };
        assert(s_apply_updates(stepped, Seq::<(usize, ThreadProgress)>::empty()) == stepped);
    } else {
        assert(us.push(u)[0] == us[0]);
        assert(us.push(u).drop_first() =~= us.drop_first().push(u));
        let stepped = if (us[0].0 as int) < table.len() {
            table.update(us[0].0 as int, us[0].1)
        } else {
            table
        };
        lemma_apply_updates_snoc(stepped, us.drop_first(), u);
    }
}

/// Once no worker is `Active`, a batch of terminal updates keeps it that
/// way: a frame that has reported done stays done, because this library's
/// workers only ever report the absorbing states `Done` and `Terminated`.
pub proof fn lemma_settled_table_stays_settled(
    table: Seq<ThreadProgress>,
    us: Seq<(usize, ThreadProgress)>,
)
    requires
        !exists|i: int| 0 <= i < table.len() && table[i] is Active,
        forall|k: int| 0 <= k < us.len() ==> !((#[trigger] us[k]).1 is Active),
    ensures
        !exists|i: int|
            0 <= i < s_apply_updates(table, us).len() && s_apply_updates(table, us)[i] is Active,
    decreases us.len(),
{
    if us.len() > 0 {
        let stepped = if (us[0].0 as int) < table.len() {
            table.update(us[0].0 as int, us[0].1)
        } else {
            table
        };
        assert(!exists|i: int| 0 <= i < stepped.len() && stepped[i] is Active);
        assert(forall|k: int|
            0 <= k < us.drop_first().len() ==> !((#[trigger] us.drop_first()[k]).1 is Active));
        lemma_settled_table_stays_settled(stepped, us.drop_first());
    }
}

/// Manages the frame currently being rendered.
pub struct RenderProgress {
    /// True if the frame is aborting early (e.g. render params changed).
    pub invalidated: bool,
    /// Work units not yet flushed to a buffer.
    pub remaining: usize,
    /// Incoming completed work units.
    pub progress_rx: Option<std::sync::mpsc::Receiver<RenderChunk>>,
    /// Last reported state of each worker.
    pub thread_status: Vec<ThreadProgress>,
    /// Incoming worker status updates.
    pub thread_rx: Option<std::sync::mpsc::Receiver<(usize, ThreadProgress)>>,
    /// Terminate signal, one channel per worker.
    pub thread_term_tx: Vec<std::sync::mpsc::Sender<()>>,
}

impl Default for RenderProgress {
    /// An idle coordinator: nothing outstanding, nothing active, so
    /// `poll_done` reports completion at once and `flush_to_buffer` finds
    /// nothing to copy.
    fn default() -> (r: RenderProgress)
        ensures
            !r.invalidated,
            r.remaining == 0,
            r.progress_rx is None,
            r.thread_status@.len() == 0,
            r.thread_rx is None,
            r.thread_term_tx@.len() == 0,
    {
        RenderProgress {
            invalidated: false,
            remaining: 0,
            progress_rx: None,
            thread_status: Vec::new(),
            thread_rx: None,
            thread_term_tx: Vec::new(),
        }
    }
}

impl RenderProgress {
    /// A coordinator for a freshly started frame: `remaining` work units
    /// outstanding, every worker `Active`, holding the receiving ends and
    /// the terminate senders for this frame's worker set only.
    pub fn new(
        num_threads: usize,
        remaining: usize,
        progress_rx: std::sync::mpsc::Receiver<RenderChunk>,
        thread_rx: std::sync::mpsc::Receiver<(usize, ThreadProgress)>,
        thread_term_tx: Vec<std::sync::mpsc::Sender<()>>,
    ) -> (r: RenderProgress)
        ensures
            !r.invalidated,
            r.remaining == remaining,
            r.progress_rx is Some,
            r.thread_rx is Some,
            r.thread_status@.len() == num_threads,
            forall|i: int|
                0 <= i < num_threads ==> r.thread_status@[i] == ThreadProgress::Active,
            r.thread_term_tx@ == thread_term_tx@,
    {
        let mut status: Vec<ThreadProgress> = Vec::new();
        let mut i: usize = 0;
        while i < num_threads
            invariant
                i <= num_threads,
                status@.len() == i,
                forall|j: int| 0 <= j < i as int ==> status@[j] == ThreadProgress::Active,
            decreases num_threads - i,
        {
            status.push(ThreadProgress::Active);
            i = i + 1;
        }
        RenderProgress {
            invalidated: false,
            remaining,
            progress_rx: Some(progress_rx),
            thread_status: status,
            thread_rx: Some(thread_rx),
            thread_term_tx,
        }
    }

    /// Check if the frame is done rendering: drain any pending worker
    /// status updates into the status table, then report true exactly when
    /// no worker is still `Active` in the updated table, or the frame has
    /// been invalidated.  Never blocks.  The drained updates come back as a
    /// ghost log, and the new table is exactly the old one overwritten by
    /// that log in arrival order.
    pub fn poll_done(&mut self) -> (r: (bool, Ghost<Seq<(usize, ThreadProgress)>>))
        ensures
            final(self).invalidated == old(self).invalidated,
            final(self).remaining == old(self).remaining,
            final(self).thread_status@ == s_apply_updates(old(self).thread_status@, (r.1)@),
            final(self).thread_status@.len() == old(self).thread_status@.len(),
            final(self).progress_rx is Some <==> old(self).progress_rx is Some,
            final(self).thread_rx is Some <==> old(self).thread_rx is Some,
            final(self).thread_term_tx@.len() == old(self).thread_term_tx@.len(),
            r.0 == (final(self).invalidated || !exists|i: int|
                0 <= i < final(self).thread_status@.len()
                    && final(self).thread_status@[i] is Active),
    {
        let mut updates: Vec<(usize, ThreadProgress)> = Vec::new();
        match &self.thread_rx {
            Some(rx) => {
                // Each worker reports a terminal state at most once, so one
                // pass of as many reads as there are workers drains
                // everything that can matter for this poll.
                let mut budget = self.thread_status.len();
                while budget > 0
                    decreases budget,
                {
                    match try_recv_any(rx) {
                        Some(u) => {
                            updates.push(u);
                            budget = budget - 1;
                        },
                        None => {
                            break ;
                        },
                    }
                }
            },
            None => {},
        }
        let mut k: usize = 0;
        while k < updates.len()
            invariant
                self.invalidated == old(self).invalidated,
                self.remaining == old(self).remaining,
                self.thread_status@.len() == old(self).thread_status@.len(),
                self.thread_status@ == s_apply_updates(
                    old(self).thread_status@,
                    updates@.take(k as int),
                ),
                self.progress_rx is Some <==> old(self).progress_rx is Some,
                self.thread_rx is Some <==> old(self).thread_rx is Some,
                self.thread_term_tx@.len() == old(self).thread_term_tx@.len(),
                k <= updates@.len(),
            decreases updates@.len() - k,
        {
            let u = updates[k];
            proof {
                lemma_apply_updates_len(old(self).thread_status@, updates@.take(k as int));
                lemma_apply_updates_snoc(
                    old(self).thread_status@,
                    updates@.take(k as int),
                    updates@[k as int],
                );
                assert(updates@.take(k as int + 1) =~= updates@.take(k as int).push(
                    updates@[k as int],
                ));
            }
            if u.0 < self.thread_status.len() {
                self.thread_status[u.0] = u.1;
            }
            k = k + 1;
        }
        proof {
            assert(updates@.take(updates@.len() as int) =~= updates@);
        }
        let mut any_active = false;
        let mut i: usize = 0;
        while i < self.thread_status.len()
            invariant
                i <= self.thread_status@.len(),
                any_active == exists|j: int|
                    0 <= j < i as int && self.thread_status@[j] is Active,
            decreases self.thread_status@.len() - i,
        {
            if self.thread_status[i] == ThreadProgress::Active {
                any_active = true;
            }
            i = i + 1;
        }
        (!any_active || self.invalidated, Ghost(updates@))
    }

    /// Invalidate the frame, marking it as done: `poll_done` reports
    /// completion immediately, `flush_to_buffer` becomes a no-op, and every
    /// worker's terminate channel is signalled best-effort (a message that
    /// is not received only means that worker already finished).
    pub fn invalidate(&mut self)
        ensures
            final(self).invalidated,
            final(self).remaining == old(self).remaining,
            final(self).thread_status@ == old(self).thread_status@,
            final(self).progress_rx is Some <==> old(self).progress_rx is Some,
            final(self).thread_rx is Some <==> old(self).thread_rx is Some,
            final(self).thread_term_tx@.len() == old(self).thread_term_tx@.len(),
    {
        self.invalidated = true;
        let mut i: usize = 0;
        while i < self.thread_term_tx.len()
            invariant
                self.invalidated,
                self.remaining == old(self).remaining,
                self.thread_status@ == old(self).thread_status@,
                self.thread_term_tx@.len() == old(self).thread_term_tx@.len(),
                i <= self.thread_term_tx@.len(),
            decreases self.thread_term_tx@.len() - i,
        {
            let _delivered = send_any(&self.thread_term_tx[i], ());
            i = i + 1;
        }
    }

    /// Flush the current render state to the output buffer: drain every
    /// already-completed work unit and copy its pixels in at their linear
    /// indices.  A no-op when invalidated; never blocks; never changes the
    /// buffer's length or any position not covered by a drained chunk — in
    /// particular, with a buffer of length `width * height` no index at or
    /// beyond `width * height` is ever written.
    pub fn flush_to_buffer(&mut self, buffer: &mut Vec<u32>) -> (flushed: Ghost<Seq<RenderChunk>>)
        ensures
            final(buffer)@ == s_apply_chunks(old(buffer)@, flushed@),
            final(buffer)@.len() == old(buffer)@.len(),
            old(self).invalidated ==> flushed@ == Seq::<RenderChunk>::empty() && final(buffer)@
                == old(buffer)@,
            final(self).invalidated == old(self).invalidated,
            final(self).remaining == old(self).remaining - flushed@.len(),
            old(self).remaining == 0 ==> flushed@ == Seq::<RenderChunk>::empty()
                && final(buffer)@ == old(buffer)@,
            final(self).thread_status@ == old(self).thread_status@,
            final(self).progress_rx is Some <==> old(self).progress_rx is Some,
            final(self).thread_rx is Some <==> old(self).thread_rx is Some,
            final(self).thread_term_tx@.len() == old(self).thread_term_tx@.len(),
    {
        let ghost mut flushed: Seq<RenderChunk> = Seq::empty();
        if self.invalidated {
            return Ghost(flushed);
        }
        let mut budget = self.remaining;
        match &self.progress_rx {
            Some(rx) => {
                // `remaining` bounds the number of units any well-behaved
                // worker set can still deliver, so the drain terminates
                // even though the channel itself promises nothing.
                while budget > 0
                    invariant
                        buffer@.len() == old(buffer)@.len(),
                        buffer@ == s_apply_chunks(old(buffer)@, flushed),
                        budget <= old(self).remaining,
                        budget == old(self).remaining - flushed.len(),
                        budget == old(self).remaining ==> flushed == Seq::<RenderChunk>::empty(),
                    decreases budget,
                {
                    match try_recv_any(rx) {
                        Some(chunk) => {
                            proof {
                                lemma_apply_chunks_snoc(old(buffer)@, flushed, chunk);
                            }
                            apply_chunk(buffer, &chunk);
                            proof {
                                flushed = flushed.push(chunk);
                            }
                            budget = budget - 1;
                        },
                        None => {
                            break ;
                        },
                    }
                }
            },
            None => {},
        }
        self.remaining = budget;
        Ghost(flushed)
    }
}

/// Appending one chunk to a flush is the same as flushing and then applying
/// that chunk.
pub proof fn lemma_apply_chunks_snoc(buf: Seq<u32>, cs: Seq<RenderChunk>, c: RenderChunk)
    ensures
        s_apply_chunks(buf, cs.push(c)) == s_apply_chunk(s_apply_chunks(buf, cs), c),
    decreases cs.len(),
{
    if cs.len() == 0 {
        assert(cs.push(c)[0] == c);
        assert(cs.push(c).drop_first() =~= Seq::<RenderChunk>::empty());
        assert(s_apply_chunks(s_apply_chunk(buf, c), Seq::<RenderChunk>::empty())
            == s_apply_chunk(buf, c));
        assert(s_apply_chunks(buf, cs.push(c)) == s_apply_chunk(buf, c));
    } else {
        assert(cs.push(c)[0] == cs[0]);
        assert(cs.push(c).drop_first() =~= cs.drop_first().push(c));
        lemma_apply_chunks_snoc(s_apply_chunk(buf, cs[0]), cs.drop_first(), c);
    }
}

/// Copy one completed unit into the buffer at its linear indices, dropping
/// anything that would land outside the buffer.
fn apply_chunk(buffer: &mut Vec<u32>, chunk: &RenderChunk)
    ensures
        final(buffer)@ == s_apply_chunk(old(buffer)@, *chunk),
{
    let len = buffer.len();
    if chunk.start >= len {
        proof {
            assert(s_apply_chunk(buffer@, *chunk) =~= buffer@);
        }
        return ;
    }
    let room = len - chunk.start;
    let m = if chunk.pixels.len() < room {
        chunk.pixels.len()
    } else {
        room
    };
    let mut k: usize = 0;
    while k < m
        invariant
            buffer@.len() == old(buffer)@.len(),
            chunk.start < old(buffer)@.len(),
            m <= chunk.pixels@.len(),
            chunk.start + m <= old(buffer)@.len(),
            chunk.start + m <= usize::MAX,
            m >= chunk.pixels@.len() || chunk.start + m == old(buffer)@.len(),
            k <= m,
            forall|j: int|
                0 <= j < old(buffer)@.len() && !(chunk.start <= j < chunk.start + k as int)
                    ==> buffer@[j] == old(buffer)@[j],
            forall|j: int|
                chunk.start <= j < chunk.start + k as int ==> buffer@[j] == chunk.pixels@[j
                    - chunk.start],
        decreases m - k,
    {
        let idx = chunk.start + k;
        buffer[idx] = chunk.pixels[k];
        k = k + 1;
    }
    proof {
        assert(buffer@ =~= s_apply_chunk(old(buffer)@, *chunk));
    }
}

/// The ordered pool of work units covering the frame: unit `i` is the
/// half-open index range starting at `i * CHUNK_SIZE`, and together the
/// units cover `[0, width * height)` exactly.
pub fn build_work_pool(width: usize, height: usize) -> (pool: Vec<(usize, usize)>)
    requires
        width <= 4096,
        height <= 4096,
    ensures
        forall|i: int|
            0 <= i < pool@.len() ==> (#[trigger] pool@[i]).0 == i * CHUNK_SIZE && pool@[i].1 == (
            if pool@[i].0 + CHUNK_SIZE <= width * height {
                pool@[i].0 + CHUNK_SIZE
            } else {
                width * height
            }),
        pool@.len() * CHUNK_SIZE >= width * height,
        width * height > 0 ==> (pool@.len() - 1) * CHUNK_SIZE < width * height,
        width * height == 0 ==> pool@.len() == 0,
{
    proof {
        assert(width * height <= 4096 * 4096) by (nonlinear_arith)
            requires
                width <= 4096,
                height <= 4096,
        ;
    }
    let n = width * height;
    let mut pool: Vec<(usize, usize)> = Vec::new();
    let mut start: usize = 0;
    while start < n
        invariant
            start == pool@.len() * CHUNK_SIZE,
            start <= n,
            n <= 4096 * 4096,
            forall|i: int|
                0 <= i < pool@.len() ==> (#[trigger] pool@[i]).0 == i * CHUNK_SIZE && pool@[i].1
                    == (if pool@[i].0 + CHUNK_SIZE <= n {
                    pool@[i].0 + CHUNK_SIZE
                } else {
                    n as int
                }),
        decreases n - start,
    {
        let end = if start + CHUNK_SIZE <= n {
            start + CHUNK_SIZE
        } else {
            n
        };
        pool.push((start, end));
        start = end;
        proof {
            if start < n {
                assert(start == pool@.len() * CHUNK_SIZE);
            }
        }
    }
    pool
}

/// Shuffle the work pool in place (cosmetic: a scattered progressive fill),
/// keeping exactly the same collection of units.
pub fn shuffle_pool(pool: &mut Vec<(usize, usize)>, rng: &mut Rand64)
    ensures
        final(pool)@.len() == old(pool)@.len(),
        final(pool)@.to_multiset() == old(pool)@.to_multiset(),
{
    let len = pool.len();
    if len <= 1 {
        return ;
    }
    let mut i: usize = len - 1;
    while i > 0
        invariant
            i < pool@.len(),
            pool@.len() <= usize::MAX,
            pool@.len() == old(pool)@.len(),
            pool@.to_multiset() == old(pool)@.to_multiset(),
        decreases i,
    {
        let draw = rng.next_raw();
        let j = (draw % ((i + 1) as u64)) as usize;
        proof {
            lemma_swap_preserves_multiset(pool@, i as int, j as int);
        }
        let a = pool[i];
        let b = pool[j];
        pool[i] = b;
        pool[j] = a;
        i = i - 1;
    }
}

/// Swapping two positions of a sequence keeps its multiset of elements.
pub proof fn lemma_swap_preserves_multiset(s: Seq<(usize, usize)>, i: int, j: int)
    requires
        0 <= i < s.len(),
        0 <= j < s.len(),
    ensures
        s.update(i, s[j]).update(j, s[i]).to_multiset() == s.to_multiset(),
{
    let s1 = s.update(i, s[j]);
    if i == j {
        assert(s1.update(j, s[i]) =~= s);
    } else {
        assert(s1[j] == s[j]);
        assert(s1.update(j, s[i]).to_multiset() =~= s.to_multiset());
    }
}

/// Seed a worker's generator by mixing the frame seed with the worker's
/// index, so that a fixed frame seed keeps the whole frame reproducible
/// while workers draw from differently seeded streams.
pub fn worker_rng(frame_seed: u64, worker_id: u64) -> (r: Rand64)
    ensures
        r.state == crate::rng::s_seed(
            frame_seed ^ (worker_id << 32) ^ worker_id ^ 0x6A09_E667_F3BC_C909,
        ),
        r.state != 0,
{
    let mixed = frame_seed ^ (worker_id << 32) ^ worker_id ^ 0x6A09_E667_F3BC_C909;
    Rand64::from_seed(mixed)
}

} // verus!
