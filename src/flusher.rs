//! The single consumer of the queues: it folds miss increments into the
//! statistics, writes records into the current capture file, rotates the
//! file once its window reaches the clipping threshold, and, after capture
//! has stopped, drains both queues completely.
use crate::capture_file::{file_bytes, CaptureFile};
use crate::queue::CaptureQueues;
use crate::record::PacketRecord;
use crate::stats::{megabytes_of, sat_add, CaptureStats, StatsReport};
use vstd::prelude::*;

verus! {

/// `n`, held at `u64::MAX`.
pub open spec fn capped(n: int) -> u64 {
    if n > u64::MAX {
        u64::MAX
    } else {
        n as u64
    }
}

/// The total miss count after folding the increments of `incs`, oldest
/// first, into `total`.
pub open spec fn fold_missed(total: u64, incs: Seq<u64>) -> u64
    decreases incs.len(),
{
    if incs.len() == 0 {
        total
    } else {
        fold_missed(sat_add(total, incs[0] as int), incs.drop_first())
    }
}

/// Whether a window that held `window_bytes` before a record of `len` bytes
/// reaches the clipping threshold with it.
pub open spec fn reaches_threshold(window_bytes: u64, len: int, clipping_threshold: u64) -> bool {
    window_bytes + len >= clipping_threshold
}

/// Bytes held by the records of `rs`.
pub open spec fn bytes_of(rs: Seq<PacketRecord>) -> int
    decreases rs.len(),
{
    if rs.len() == 0 {
        0
    } else {
        bytes_of(rs.drop_last()) + rs.last().data_spec().len()
    }
}

/// The cumulative byte count after the records of `rs`, oldest first, are
/// counted onto `total`.
pub open spec fn fold_bytes(total: u64, rs: Seq<PacketRecord>) -> u64
    decreases rs.len(),
{
    if rs.len() == 0 {
        total
    } else {
        sat_add(fold_bytes(total, rs.drop_last()), rs.last().data_spec().len() as int)
    }
}

/// How the records of `rs`, written one by one after a current file that
/// holds `current`, split into files: the files they close, in order, and
/// the records of the file left open. A file closes right after the record
/// that brings its bytes to the clipping threshold; the next one starts
/// empty.
pub open spec fn file_run(current: Seq<PacketRecord>, rs: Seq<PacketRecord>, clipping_threshold: int) -> (
    Seq<Seq<PacketRecord>>,
    Seq<PacketRecord>,
)
    decreases rs.len(),
{
    if rs.len() == 0 {
        (Seq::empty(), current)
    } else {
        let cur = current.push(rs[0]);
        if bytes_of(cur) >= clipping_threshold {
            let (files, open) = file_run(Seq::empty(), rs.drop_first(), clipping_threshold);
            (seq![cur] + files, open)
        } else {
            file_run(cur, rs.drop_first(), clipping_threshold)
        }
    }
}

pub proof fn lemma_bytes_of_concat(a: Seq<PacketRecord>, b: Seq<PacketRecord>)
    ensures
        bytes_of(a + b) == bytes_of(a) + bytes_of(b),
    decreases b.len(),
{
    if b.len() == 0 {
        assert(a + b =~= a);
    } else {
        lemma_bytes_of_concat(a, b.drop_last());
        assert((a + b).drop_last() =~= a + b.drop_last());
        assert((a + b).last() == b.last());
    }
}

proof fn lemma_bytes_of_nonneg(rs: Seq<PacketRecord>)
    ensures
        bytes_of(rs) >= 0,
    decreases rs.len(),
{
    if rs.len() > 0 {
        lemma_bytes_of_nonneg(rs.drop_last());
    }
}

proof fn lemma_fills_once(current: Seq<PacketRecord>, rs: Seq<PacketRecord>, clipping_threshold: int)
    requires
        rs.len() > 0,
        bytes_of(current + rs.drop_last()) < clipping_threshold,
        bytes_of(current + rs) == clipping_threshold,
    ensures
        file_run(current, rs, clipping_threshold) == (
            seq![current + rs],
            Seq::<PacketRecord>::empty(),
        ),
    decreases rs.len(),
{
    let cur = current.push(rs[0]);
    let rest = rs.drop_first();
    if rs.len() == 1 {
        assert(cur =~= current + rs);
        let e = Seq::<PacketRecord>::empty();
        assert(file_run(e, rest, clipping_threshold) == (Seq::<Seq<PacketRecord>>::empty(), e));
        assert(seq![cur] + Seq::<Seq<PacketRecord>>::empty() =~= seq![current + rs]);
    } else {
        assert(current + rs.drop_last() =~= cur + rest.drop_last());
        assert(current + rs =~= cur + rest);
        lemma_bytes_of_concat(cur, rest.drop_last());
        lemma_bytes_of_nonneg(rest.drop_last());
        lemma_fills_once(cur, rest, clipping_threshold);
    }
}

/// Records that together hold exactly the clipping threshold's worth of
/// bytes, all but the last holding less, written from a fresh file, close
/// exactly one file, right after the last record; that file holds all of
/// them, and the file opened next is empty (its window holds no byte).
pub proof fn lemma_threshold_bytes_rotate_once(rs: Seq<PacketRecord>, clipping_threshold: int)
    requires
        rs.len() > 0,
        bytes_of(rs.drop_last()) < clipping_threshold,
        bytes_of(rs) == clipping_threshold,
    ensures
        file_run(Seq::empty(), rs, clipping_threshold) == (seq![rs], Seq::<PacketRecord>::empty()),
        bytes_of(file_run(Seq::empty(), rs, clipping_threshold).1) == 0,
{
    let e = Seq::<PacketRecord>::empty();
    assert(e + rs =~= rs);
    assert(e + rs.drop_last() =~= rs.drop_last());
    lemma_fills_once(e, rs, clipping_threshold);
}

proof fn lemma_file_run_step(current: Seq<PacketRecord>, rs: Seq<PacketRecord>, clipping_threshold: int)
    requires
        rs.len() > 0,
    ensures
        ({
            let cur = current.push(rs[0]);
            let rest = file_run(Seq::empty(), rs.drop_first(), clipping_threshold);
            &&& bytes_of(cur) >= clipping_threshold ==> file_run(current, rs, clipping_threshold) == (
                seq![cur] + rest.0,
                rest.1,
            )
            &&& bytes_of(cur) < clipping_threshold ==> file_run(current, rs, clipping_threshold)
                == file_run(cur, rs.drop_first(), clipping_threshold)
        }),
{
}

proof fn lemma_next_file(
    closed: Seq<Seq<PacketRecord>>,
    files: Seq<Seq<PacketRecord>>,
    n: int,
    cur: Seq<PacketRecord>,
    later: Seq<Seq<PacketRecord>>,
)
    requires
        0 <= n <= files.len(),
        files.subrange(n, files.len() as int) == seq![cur] + later,
    ensures
        n < files.len(),
        files[n] == cur,
        files.subrange(n + 1, files.len() as int) == later,
        closed + files.subrange(0, n + 1) == (closed + files.subrange(0, n)).push(cur),
{
    assert(files.subrange(n, files.len() as int).len() == files.len() - n);
    assert((seq![cur] + later).len() == 1 + later.len());
    assert(n < files.len());
    assert(files.subrange(n, files.len() as int)[0] == files[n]);
    assert(files.subrange(n + 1, files.len() as int) =~= files.subrange(n, files.len() as int).drop_first());
    assert((seq![cur] + later).drop_first() =~= later);
    assert(closed + files.subrange(0, n + 1) =~= (closed + files.subrange(0, n)).push(cur));
}

proof fn lemma_records_through_file(
    closed: Seq<Seq<PacketRecord>>,
    current: Seq<PacketRecord>,
    files: Seq<Seq<PacketRecord>>,
    n: int,
    queued: Seq<PacketRecord>,
    consumed: int,
)
    requires
        0 <= n < files.len(),
        (closed + files.subrange(0, n + 1)).flatten() == closed.flatten() + current + queued.subrange(0, consumed),
        0 <= consumed <= queued.len(),
    ensures
        files.subrange(0, n + 1).flatten().len() - current.len() == consumed,
{
    vstd::seq_lib::lemma_flatten_concat(closed, files.subrange(0, n + 1));
    let f = files.subrange(0, n + 1).flatten();
    assert((closed + files.subrange(0, n + 1)).flatten().len() == closed.flatten().len() + f.len());
    assert((closed.flatten() + current + queued.subrange(0, consumed)).len() == closed.flatten().len()
        + current.len() + consumed);
}

/// Cadence of the periodic stats line, in milliseconds.
pub const STATS_INTERVAL_MS: u64 = 1000;

/// Whether the capture loop ends: the shared stop flag is raised, or the
/// recording duration has elapsed (the loop then raises the flag itself, so
/// that both triggers lead to the same drain).
pub fn capture_should_stop(stop_flag: bool, elapsed_secs: u64, record_duration_secs: u64) -> (r:
    bool)
    ensures
        r == (stop_flag || elapsed_secs >= record_duration_secs),
{
    stop_flag || elapsed_secs >= record_duration_secs
}

/// Whether the periodic stats line is due, `since_last_ms` after the last.
pub fn stats_line_due(since_last_ms: u64) -> (r: bool)
    ensures
        r == (since_last_ms >= STATS_INTERVAL_MS),
{
    since_last_ms >= STATS_INTERVAL_MS
}

/// A finished capture file: the bytes of it not handed out before (for a
/// file opened and closed by the same drain, the whole file) and the stats
/// line of the window it closed.
pub struct Rotation {
    pub closing_bytes: Vec<u8>,
    pub report: StatsReport,
}

pub struct Flusher {
    stats: CaptureStats,
    clipping_threshold: u64,
    snaplen: u32,
    file: CaptureFile,
    closed: Ghost<Seq<Seq<PacketRecord>>>,
}

impl Flusher {
    pub closed spec fn stats_spec(&self) -> CaptureStats {
        self.stats
    }

    pub closed spec fn clipping_threshold_spec(&self) -> u64 {
        self.clipping_threshold
    }

    pub closed spec fn snaplen_spec(&self) -> u32 {
        self.snaplen
    }

    /// Records of each finished file, in the order the files were closed.
    pub closed spec fn closed_files(&self) -> Seq<Seq<PacketRecord>> {
        self.closed@
    }

    /// Records of the file being written.
    pub closed spec fn current_records(&self) -> Seq<PacketRecord> {
        self.file.records()
    }

    /// Bytes of the current file already handed out.
    pub closed spec fn current_taken(&self) -> Seq<u8> {
        self.file.taken()
    }

    /// Every record written so far, across all files, in order.
    pub open spec fn written(&self) -> Seq<PacketRecord> {
        self.closed_files().flatten() + self.current_records()
    }

    pub closed spec fn wf(&self) -> bool {
        &&& self.file.wf()
        &&& self.file.snaplen_spec() == self.snaplen
        &&& self.stats.total_captured_counter == capped(
            (self.closed@.flatten().len() + self.file.records().len()) as int,
        )
        &&& self.stats.current_capture_count_bytes == bytes_of(self.file.records())
        &&& self.stats.current_capture_count == capped(self.file.records().len() as int)
    }

    /// The window counters describe the file being written: its bytes and,
    /// held at `u64::MAX`, its records.
    pub proof fn lemma_window_is_current_file(&self)
        requires
            self.wf(),
        ensures
            self.stats_spec().current_capture_count_bytes == bytes_of(self.current_records()),
            self.stats_spec().current_capture_count == capped(self.current_records().len() as int),
    {
    }

    /// Every record written is counted once: the cumulative capture count
    /// is the number of records written so far, held at `u64::MAX`.
    pub proof fn lemma_captured_count_is_written(&self)
        requires
            self.wf(),
        ensures
            self.stats_spec().total_captured_counter == capped(self.written().len() as int),
    {
    }

    /// After the drain, the cumulative capture count has grown by the number
    /// of records that were queued, held at `u64::MAX`: nothing that reached
    /// the queue is lost.
    pub proof fn lemma_drained_records_all_counted(
        before: &Flusher,
        after: &Flusher,
        queued: Seq<PacketRecord>,
    )
        requires
            before.wf(),
            after.wf(),
            after.written() == before.written() + queued,
        ensures
            after.stats_spec().total_captured_counter == capped(
                (before.written().len() + queued.len()) as int,
            ),
    {
        after.lemma_captured_count_is_written();
        assert(after.written().len() == before.written().len() + queued.len());
    }

    /// A flusher with zeroed statistics and an empty first file.
    pub fn new(clipping_threshold: u64, snaplen: u32) -> (r: Flusher)
        ensures
            r.wf(),
            r.stats_spec().is_zero(),
            r.clipping_threshold_spec() == clipping_threshold,
            r.snaplen_spec() == snaplen,
            r.closed_files() == Seq::<Seq<PacketRecord>>::empty(),
            r.current_records() == Seq::<PacketRecord>::empty(),
            r.current_taken() == Seq::<u8>::empty(),
    {
        let file = CaptureFile::open(snaplen);
        let r = Flusher {
            stats: CaptureStats::new(),
            clipping_threshold,
            snaplen,
            file,
            closed: Ghost(Seq::empty()),
        };
        assert(r.closed@.flatten() =~= Seq::<PacketRecord>::empty());
        r
    }

    /// The statistics so far.
    pub fn stats(&self) -> (r: CaptureStats)
        ensures
            r == self.stats_spec(),
    {
        self.stats
    }

    /// The figures of a stats line for the current counters.
    pub fn report(&self) -> (r: StatsReport)
        ensures
            r.window_missed == self.stats_spec().current_missed_count,
            r.window_captured == self.stats_spec().current_capture_count,
            r.total_missed == self.stats_spec().total_missed_counter,
            r.total_captured == self.stats_spec().total_captured_counter,
            r.total_megabytes == megabytes_of(self.stats_spec().total_captured_counter_bytes),
    {
        self.stats.report()
    }

    /// Folds a miss increment into the window and total miss counters.
    pub fn on_missed(&mut self, count: u64)
        requires
            old(self).wf(),
        ensures
            final(self).wf(),
            final(self).stats_spec().current_missed_count == sat_add(
                old(self).stats_spec().current_missed_count,
                count as int,
            ),
            final(self).stats_spec().total_missed_counter == sat_add(
                old(self).stats_spec().total_missed_counter,
                count as int,
            ),
            final(self).stats_spec().total_captured_counter == old(
                self,
            ).stats_spec().total_captured_counter,
            final(self).stats_spec().total_captured_counter_bytes == old(
                self,
            ).stats_spec().total_captured_counter_bytes,
            final(self).stats_spec().current_capture_count == old(
                self,
            ).stats_spec().current_capture_count,
            final(self).stats_spec().current_capture_count_bytes == old(
                self,
            ).stats_spec().current_capture_count_bytes,
            final(self).clipping_threshold_spec() == old(self).clipping_threshold_spec(),
            final(self).snaplen_spec() == old(self).snaplen_spec(),
            final(self).closed_files() == old(self).closed_files(),
            final(self).current_records() == old(self).current_records(),
            final(self).current_taken() == old(self).current_taken(),
    {
        self.stats.increment_missed_counter(count);
    }

    /// Bytes of the current file produced since they were last taken.
    pub fn take_output(&mut self) -> (r: Vec<u8>)
        requires
            old(self).wf(),
        ensures
            final(self).wf(),
            final(self).stats_spec() == old(self).stats_spec(),
            final(self).clipping_threshold_spec() == old(self).clipping_threshold_spec(),
            final(self).snaplen_spec() == old(self).snaplen_spec(),
            final(self).closed_files() == old(self).closed_files(),
            final(self).current_records() == old(self).current_records(),
            final(self).current_taken() == old(self).current_taken() + r@,
            final(self).current_taken() == file_bytes(
                final(self).snaplen_spec(),
                final(self).current_records(),
            ),
    {
        self.file.take_bytes()
    }

    /// Writes one record into the current file and counts it. When the
    /// window then reaches the clipping threshold, the file is finished and
    /// a new, empty one is opened; the window counters start again from zero
    /// and the stats line of the closed window comes back.
    pub fn on_packet(&mut self, record: PacketRecord) -> (r: Option<Rotation>)
        requires
            old(self).wf(),
        ensures
            final(self).wf(),
            final(self).written() == old(self).written().push(record),
            final(self).clipping_threshold_spec() == old(self).clipping_threshold_spec(),
            final(self).snaplen_spec() == old(self).snaplen_spec(),
            final(self).stats_spec().total_captured_counter == sat_add(
                old(self).stats_spec().total_captured_counter,
                1,
            ),
            final(self).stats_spec().total_captured_counter_bytes == sat_add(
                old(self).stats_spec().total_captured_counter_bytes,
                record.data_spec().len() as int,
            ),
            final(self).stats_spec().total_missed_counter == old(
                self,
            ).stats_spec().total_missed_counter,
            (r is Some) == reaches_threshold(
                old(self).stats_spec().current_capture_count_bytes,
                record.data_spec().len() as int,
                old(self).clipping_threshold_spec(),
            ),
            (r is Some) == (bytes_of(old(self).current_records().push(record)) >= old(
                self,
            ).clipping_threshold_spec()),
            r is None ==> {
                &&& final(self).closed_files() == old(self).closed_files()
                &&& final(self).current_records() == old(self).current_records().push(record)
                &&& final(self).current_taken() == old(self).current_taken()
                &&& final(self).stats_spec().current_missed_count == old(
                    self,
                ).stats_spec().current_missed_count
                &&& final(self).stats_spec().current_capture_count == sat_add(
                    old(self).stats_spec().current_capture_count,
                    1,
                )
                &&& final(self).stats_spec().current_capture_count_bytes == sat_add(
                    old(self).stats_spec().current_capture_count_bytes,
                    record.data_spec().len() as int,
                )
            },
            r matches Some(rot) ==> {
                &&& final(self).closed_files() == old(self).closed_files().push(
                    old(self).current_records().push(record),
                )
                &&& old(self).current_taken() + rot.closing_bytes@ == file_bytes(
                    old(self).snaplen_spec(),
                    old(self).current_records().push(record),
                )
                &&& final(self).current_records() == Seq::<PacketRecord>::empty()
                &&& final(self).current_taken() == Seq::<u8>::empty()
                &&& final(self).stats_spec().current_missed_count == 0
                &&& final(self).stats_spec().current_capture_count == 0
                &&& final(self).stats_spec().current_capture_count_bytes == 0
                &&& rot.report.window_missed == old(self).stats_spec().current_missed_count
                &&& rot.report.window_captured == sat_add(
                    old(self).stats_spec().current_capture_count,
                    1,
                )
                &&& rot.report.total_missed == final(self).stats_spec().total_missed_counter
                &&& rot.report.total_captured == final(self).stats_spec().total_captured_counter
                &&& rot.report.total_megabytes == megabytes_of(
                    final(self).stats_spec().total_captured_counter_bytes,
                )
            },
    {
        let ghost old_closed = self.closed@;
        let ghost old_records = self.file.records();
        let ghost old_taken = self.file.taken();
        let len = record.captured_len() as u64;
        self.file.write(&record);
        self.stats.increment_capture_counter(len);
        proof {
            assert(self.closed@.flatten().len() + self.file.records().len() == old_closed.flatten().len()
                + old_records.len() + 1);
            assert(self.file.records().drop_last() =~= old_records);
            lemma_bytes_of_nonneg(old_records);
        }
        if self.stats.current_capture_count_bytes >= self.clipping_threshold {
            let report = self.stats.report();
            self.stats.reset_all_last_counter();
            let ghost taken_before = self.file.taken();
            assert(taken_before == old_taken);
            let closing_bytes = self.file.take_bytes();
            let ghost finished = self.file.records();
            proof {
                assert(old_records.push(record) == finished);
                assert(taken_before + closing_bytes@ == file_bytes(self.snaplen, finished));
            }
            self.file = CaptureFile::open(self.snaplen);
            self.closed = Ghost(old_closed.push(finished));
            proof {
                old_closed.lemma_flatten_push(finished);
                assert(self.closed@.flatten() + self.file.records() =~= old_closed.flatten() + old_records.push(record));
            }
            Some(Rotation { closing_bytes, report })
        } else {
            proof {
                assert(self.closed@.flatten() + self.file.records() =~= old_closed.flatten() + old_records.push(record));
            }
            None
        }
    }

    /// How queued records `rs` would split into files if written now: the
    /// files they close and the records of the file left open.
    pub open spec fn split_of(&self, rs: Seq<PacketRecord>) -> (Seq<Seq<PacketRecord>>, Seq<PacketRecord>) {
        file_run(self.current_records(), rs, self.clipping_threshold_spec() as int)
    }

    /// Whether `rot`, the `i`-th rotation of a drain that started from
    /// `self` with queued records `rs` and miss increments `incs`, closed
    /// its file with the right bytes and the right stats line: the line
    /// gives the file's record count, the window misses (all of the queued
    /// ones for the first file, none after), and the totals as they stood
    /// once that file's last record was counted.
    pub open spec fn drained_rotation(
        &self,
        rs: Seq<PacketRecord>,
        incs: Seq<u64>,
        missed: u64,
        i: int,
        rot: Rotation,
    ) -> bool {
        let files = self.split_of(rs).0;
        let k = files.subrange(0, i + 1).flatten().len() - self.current_records().len();
        &&& (if i == 0 {
            self.current_taken()
        } else {
            Seq::<u8>::empty()
        }) + rot.closing_bytes@ == file_bytes(self.snaplen_spec(), files[i])
        &&& rot.report.window_captured == capped(files[i].len() as int)
        &&& rot.report.window_missed == (if i == 0 {
            fold_missed(self.stats_spec().current_missed_count, incs)
        } else {
            0
        })
        &&& rot.report.total_missed == missed
        &&& rot.report.total_captured == capped(self.written().len() + k)
        &&& rot.report.total_megabytes == megabytes_of(
            fold_bytes(self.stats_spec().total_captured_counter_bytes, rs.subrange(0, k)),
        )
    }

    /// The drain phase, once every producer has stopped and the queues are
    /// held here alone: folds every queued miss increment into the counters,
    /// then writes every queued record, oldest first, closing files by the
    /// clipping threshold exactly as during capture (`split_of`). Both queues
    /// end empty and no record is left out. Each finished file comes back in
    /// the order it was closed, with its stats line; the file open at the end
    /// stays open, its bytes to be taken by `take_output`.
    #[verifier::rlimit(60)]
    pub fn drain(&mut self, queues: &mut CaptureQueues) -> (r: Vec<Rotation>)
        requires
            old(self).wf(),
            old(queues).wf(),
        ensures
            final(self).wf(),
            final(queues).wf(),
            final(queues).capacity() == old(queues).capacity(),
            final(queues).packet_items().len() == 0,
            final(queues).miss_items().len() == 0,
            final(self).written() == old(self).written() + old(queues).packet_items(),
            final(self).closed_files() == old(self).closed_files() + old(self).split_of(
                old(queues).packet_items(),
            ).0,
            final(self).current_records() == old(self).split_of(old(queues).packet_items()).1,
            r.len() == old(self).split_of(old(queues).packet_items()).0.len(),
            forall|i: int|
                0 <= i < r.len() ==> old(self).drained_rotation(
                    old(queues).packet_items(),
                    old(queues).miss_items(),
                    final(self).stats_spec().total_missed_counter,
                    i,
                    #[trigger] r[i],
                ),
            final(self).stats_spec().current_capture_count_bytes == bytes_of(
                final(self).current_records(),
            ),
            final(self).stats_spec().current_capture_count == capped(
                final(self).current_records().len() as int,
            ),
            final(self).stats_spec().total_missed_counter == fold_missed(
                old(self).stats_spec().total_missed_counter,
                old(queues).miss_items(),
            ),
            final(self).stats_spec().current_missed_count == (if r.len() == 0 {
                fold_missed(old(self).stats_spec().current_missed_count, old(queues).miss_items())
            } else {
                0
            }),
            final(self).stats_spec().total_captured_counter_bytes == fold_bytes(
                old(self).stats_spec().total_captured_counter_bytes,
                old(queues).packet_items(),
            ),
            final(self).stats_spec().total_captured_counter == capped(
                (old(self).written().len() + old(queues).packet_items().len()) as int,
            ),
            final(self).stats_spec().total_missed_counter >= old(
                self,
            ).stats_spec().total_missed_counter,
            final(self).stats_spec().total_captured_counter >= old(
                self,
            ).stats_spec().total_captured_counter,
            final(self).stats_spec().total_captured_counter_bytes >= old(
                self,
            ).stats_spec().total_captured_counter_bytes,
            r.len() == 0 ==> final(self).current_taken() == old(self).current_taken(),
            r.len() > 0 ==> final(self).current_taken() == Seq::<u8>::empty(),
            final(self).clipping_threshold_spec() == old(self).clipping_threshold_spec(),
            final(self).snaplen_spec() == old(self).snaplen_spec(),
    {
        let ghost t0 = self.stats.total_missed_counter;
        let ghost wm0 = self.stats.current_missed_count;
        let ghost m0 = queues.miss_items();
        let ghost c0 = self.stats.total_captured_counter;
        let ghost b0 = self.stats.total_captured_counter_bytes;
        loop
            invariant
                self.wf(),
                queues.wf(),
                queues.capacity() == old(queues).capacity(),
                queues.packet_items() == old(queues).packet_items(),
                self.closed_files() == old(self).closed_files(),
                self.current_records() == old(self).current_records(),
                self.current_taken() == old(self).current_taken(),
                self.clipping_threshold_spec() == old(self).clipping_threshold_spec(),
                self.snaplen_spec() == old(self).snaplen_spec(),
                self.stats.total_captured_counter == c0,
                self.stats.total_captured_counter_bytes == b0,
                self.stats.total_missed_counter >= t0,
                fold_missed(self.stats.total_missed_counter, queues.miss_items()) == fold_missed(
                    t0,
                    m0,
                ),
                fold_missed(self.stats.current_missed_count, queues.miss_items()) == fold_missed(
                    wm0,
                    m0,
                ),
            ensures
                queues.miss_items().len() == 0,
            decreases queues.miss_items().len(),
        {
            match queues.pop_missed() {
                Some(count) => {
                    self.on_missed(count);
                },
                None => {
                    break ;
                },
            }
        }
        let mut out: Vec<Rotation> = Vec::new();
        let ghost w0 = self.written();
        let ghost p0 = queues.packet_items();
        let ghost missed = self.stats.total_missed_counter;
        let ghost wm1 = self.stats.current_missed_count;
        let ghost files = old(self).split_of(p0).0;
        let ghost open = old(self).split_of(p0).1;
        let ghost n0 = old(self).closed_files().len();
        let ghost mut consumed: int = 0;
        proof {
            assert(p0.subrange(0, 0) =~= Seq::<PacketRecord>::empty());
            assert(p0.subrange(0, p0.len() as int) =~= p0);
            assert(w0 + p0.subrange(0, 0) =~= w0);
            assert(files.subrange(0, 0) =~= Seq::<Seq<PacketRecord>>::empty());
            assert(old(self).closed_files() + files.subrange(0, 0) =~= old(self).closed_files());
            assert(files.subrange(0, files.len() as int) =~= files);
        }
        loop
            invariant
                self.wf(),
                queues.wf(),
                queues.capacity() == old(queues).capacity(),
                queues.miss_items().len() == 0,
                p0 == old(queues).packet_items(),
                w0 == old(self).written(),
                b0 == old(self).stats_spec().total_captured_counter_bytes,
                wm0 == old(self).stats_spec().current_missed_count,
                t0 == old(self).stats_spec().total_missed_counter,
                m0 == old(queues).miss_items(),
                files == old(self).split_of(p0).0,
                open == old(self).split_of(p0).1,
                n0 == old(self).closed_files().len(),
                0 <= consumed <= p0.len(),
                queues.packet_items() == p0.subrange(consumed, p0.len() as int),
                self.written() == w0 + p0.subrange(0, consumed),
                out.len() <= files.len(),
                self.closed_files() == old(self).closed_files() + files.subrange(0, out.len() as int),
                file_run(self.current_records(), queues.packet_items(), self.clipping_threshold as int)
                    == (files.subrange(out.len() as int, files.len() as int), open),
                forall|j: int|
                    0 <= j < out.len() ==> old(self).drained_rotation(p0, m0, missed, j, #[trigger] out[j]),
                self.clipping_threshold_spec() == old(self).clipping_threshold_spec(),
                self.snaplen_spec() == old(self).snaplen_spec(),
                self.stats.total_captured_counter_bytes == fold_bytes(b0, p0.subrange(0, consumed)),
                self.stats.total_captured_counter_bytes >= b0,
                self.stats.total_missed_counter == missed,
                missed == fold_missed(t0, m0),
                wm1 == fold_missed(wm0, m0),
                self.stats.current_missed_count == (if out.len() == 0 {
                    wm1
                } else {
                    0
                }),
                out.len() == 0 ==> self.current_taken() == old(self).current_taken(),
                out.len() > 0 ==> self.current_taken() == Seq::<u8>::empty(),
            ensures
                queues.packet_items().len() == 0,
            decreases queues.packet_items().len(),
        {
            let ghost cur_before = self.current_records();
            let ghost items = queues.packet_items();
            let ghost out_before = out@;
            let ghost taken_before = self.current_taken();
            let ghost count_before = self.stats.current_capture_count;
            let ghost missed_window_before = self.stats.current_missed_count;
            let ghost bytes_before = self.stats.total_captured_counter_bytes;
            proof {
                self.lemma_window_is_current_file();
            }
            match queues.pop_packet() {
                Some(record) => {
                    let rotation = self.on_packet(record);
                    let ghost cur = cur_before.push(record);
                    let ghost n = out.len() as int;
                    let ghost t = self.clipping_threshold as int;
                    proof {
                        assert(record == p0[consumed]);
                        assert(items.drop_first() =~= p0.subrange(consumed + 1, p0.len() as int));
                        assert(p0.subrange(0, consumed + 1) =~= p0.subrange(0, consumed).push(record));
                        assert(p0.subrange(0, consumed + 1).drop_last() =~= p0.subrange(0, consumed));
                        assert(p0.subrange(0, consumed + 1).last() == record);
                        assert(fold_bytes(b0, p0.subrange(0, consumed + 1)) == sat_add(bytes_before, record.data_spec().len() as int));
                        assert(w0 + p0.subrange(0, consumed + 1) =~= (w0 + p0.subrange(0, consumed)).push(record));
                        lemma_file_run_step(cur_before, items, t);
                        consumed = consumed + 1;
                    }
                    match rotation {
                        Some(rot) => {
                            proof {
                                let rest_run = file_run(Seq::<PacketRecord>::empty(), items.drop_first(), t);
                                lemma_next_file(old(self).closed_files(), files, n, cur, rest_run.0);
                                assert(self.written() =~= self.closed_files().flatten());
                                lemma_records_through_file(old(self).closed_files(), old(self).current_records(), files, n, p0, consumed);
                                self.lemma_captured_count_is_written();
                                assert(self.written().len() == w0.len() + consumed);
                                assert((if n == 0 {
                                    old(self).current_taken()
                                } else {
                                    Seq::<u8>::empty()
                                }) + rot.closing_bytes@ =~= taken_before + rot.closing_bytes@);
                                assert(count_before == capped(cur_before.len() as int));
                                let k = files.subrange(0, n + 1).flatten().len() - old(self).current_records().len();
                                assert(k == consumed);
                                assert(files[n] == cur);
                                assert(rot.report.window_captured == capped(files[n].len() as int));
                                assert(rot.report.window_missed == missed_window_before);
                                assert(rot.report.window_missed == (if n == 0 { fold_missed(old(self).stats_spec().current_missed_count, m0) } else { 0 }));
                                assert(rot.report.total_missed == missed);
                                assert(rot.report.total_captured == capped(old(self).written().len() + k));
                                assert(rot.report.total_megabytes == megabytes_of(fold_bytes(old(self).stats_spec().total_captured_counter_bytes, p0.subrange(0, k))));
                                assert(old(self).drained_rotation(p0, m0, missed, n, rot));
                            }
                            out.push(rot);
                            proof {
                                assert forall|j: int| 0 <= j < out.len() implies old(self).drained_rotation(p0, m0, missed, j, #[trigger] out[j]) by {
                                    if j < n {
                                        assert(out[j] == out_before[j]);
                                    }
                                }
                            }
                        },
                        None => {
                            proof {
                                assert(out@ == out_before);
                            }
                        },
                    }
                },
                None => {
                    break ;
                },
            }
        }
        proof {
            assert(queues.packet_items().len() == 0);
            assert(consumed == p0.len());
            assert(p0.subrange(0, consumed) =~= p0);
            assert(files.subrange(out.len() as int, files.len() as int).len() == 0);
            assert(files.subrange(0, out.len() as int) =~= files);
            self.lemma_window_is_current_file();
        }
        out
    }
}

} // verus!
