//! The download session: epoch-guarded, cancellable streaming with a capped
//! in-memory buffer, throttled integer progress reports, and the staging
//! path the stream is written to before the atomic rename.
//!
//! The control block replaces ambient global state: one explicitly
//! constructed value, shared by the command layer, holds the current epoch
//! and the cancel flag. Starting a session raises the epoch — implicitly
//! invalidating cancellation intent aimed at any earlier session — and
//! clears the flag; a session must abort as soon as the flag is set or the
//! epoch no longer equals its own id.

use vstd::prelude::*;

use crate::bytes::push_all;
use crate::errors::MaaError;

verus! {

/// Bytes buffered in memory before a flush to the staging file: 256 KiB.
pub const FLUSH_THRESHOLD: usize = 262144;

/// Milliseconds that must pass between two progress reports.
pub const PROGRESS_INTERVAL_MS: u64 = 100;

/// The shared download control block: the current epoch and the cancel flag.
pub struct DownloadControl {
    /// Monotonic session counter; the live session is the one whose id
    /// equals it.
    pub epoch: u64,
    /// Cooperative cancel request, aimed at the live session.
    pub cancel_requested: bool,
}

/// The control block after a session start.
pub open spec fn start_session_spec(c: DownloadControl) -> DownloadControl {
    DownloadControl { epoch: (c.epoch + 1) as u64, cancel_requested: false }
}

/// The control block after a cancel request.
pub open spec fn cancel_spec(c: DownloadControl) -> DownloadControl {
    DownloadControl { epoch: c.epoch, cancel_requested: true }
}

/// True when the session with id `sid` must abort under control state `c`.
pub open spec fn aborts_spec(c: DownloadControl, sid: u64) -> bool {
    c.cancel_requested || c.epoch != sid
}

impl DownloadControl {
    /// A fresh control block: no session yet, no cancel requested.
    pub fn new() -> (r: Self)
        ensures
            r.epoch == 0,
            !r.cancel_requested,
    {
        DownloadControl { epoch: 0, cancel_requested: false }
    }

    /// Starts a new session: raises the epoch to a fresh id and resets the
    /// cancel flag, so cancellation intent aimed at any earlier session no
    /// longer reaches the new one.
    pub fn start_session(&mut self) -> (sid: u64)
        requires
            old(self).epoch < u64::MAX,
        ensures
            *final(self) == start_session_spec(*old(self)),
            sid == final(self).epoch,
    {
        self.epoch = self.epoch + 1;
        self.cancel_requested = false;
        self.epoch
    }

    /// Requests cancellation of the live session.
    pub fn cancel(&mut self)
        ensures
            *final(self) == cancel_spec(*old(self)),
    {
        self.cancel_requested = true;
    }

    /// Whether the session with id `sid` must abort: the cancel flag is set
    /// or the epoch has moved on.
    pub fn should_abort(&self, sid: u64) -> (r: bool)
        ensures
            r == aborts_spec(*self, sid),
    {
        self.cancel_requested || self.epoch != sid
    }
}

/// Cancellation is epoch-scoped. Start a first session, then a second (the
/// second becomes current, whether or not a cancel aimed at the first came
/// in between): the second session is not pre-cancelled by stale state
/// belonging to the first, the first can no longer proceed, and a cancel
/// issued now reaches exactly the second.
pub proof fn lemma_cancellation_epoch_scoped(c0: DownloadControl, cancelled_between: bool)
    requires
        c0.epoch + 2 <= u64::MAX,
    ensures
        ({
            let c1 = start_session_spec(c0);
            let s1 = c1.epoch;
            let c1x = if cancelled_between {
                cancel_spec(c1)
            } else {
                c1
            };
            let c2 = start_session_spec(c1x);
            let s2 = c2.epoch;
            &&& !aborts_spec(c2, s2)
            &&& aborts_spec(c2, s1)
            &&& aborts_spec(cancel_spec(c2), s2)
        }),
{
}

/// Judges the HTTP status a session's request came back with: any status
/// outside the success class (200 through 299) is a terminal error that is
/// not retried.
pub fn check_http_status(status: u16) -> (r: Result<(), MaaError>)
    ensures
        200 <= status <= 299 <==> r is Ok,
        !(200 <= status <= 299) ==> r == Err::<(), MaaError>(MaaError::IOFailure),
{
    if 200 <= status && status <= 299 {
        Ok(())
    } else {
        Err(MaaError::IOFailure)
    }
}

/// One progress report, with integer byte rate and percentage.
pub struct DownloadProgressEvent {
    /// Which session this report belongs to.
    pub session_id: u64,
    /// Bytes downloaded so far.
    pub downloaded_size: u64,
    /// Expected total bytes; zero when unknown.
    pub total_size: u64,
    /// Instantaneous rate in bytes per second over the last interval.
    pub speed: u64,
    /// Whole-number percentage of the total; zero when the total is
    /// unknown.
    pub progress: u64,
}

/// Bytes per second over an interval, saturated at the integer maximum.
pub open spec fn speed_spec(interval_bytes: u64, elapsed_ms: u64) -> u64
    recommends
        elapsed_ms > 0,
{
    let q = interval_bytes * 1000 / (elapsed_ms as int);
    if q > u64::MAX {
        u64::MAX
    } else {
        q as u64
    }
}

/// Whole-number percentage, zero when the total is unknown, saturated.
pub open spec fn percent_spec(downloaded: u64, total: u64) -> u64 {
    if total == 0 {
        0
    } else {
        let q = downloaded * 100 / (total as int);
        if q > u64::MAX {
            u64::MAX
        } else {
            q as u64
        }
    }
}

/// Progress accounting of one session: counts bytes and emits at most one
/// report per interval.
pub struct ProgressTracker {
    /// The session the reports carry.
    pub session_id: u64,
    /// Expected total bytes; zero when unknown.
    pub total: u64,
    /// Bytes seen so far.
    pub downloaded: u64,
    /// Timestamp of the last emitted report.
    pub last_emit_ms: u64,
    /// Byte count at the last emitted report.
    pub last_bytes: u64,
}

impl ProgressTracker {
    /// Starts accounting at `start_ms` with nothing downloaded.
    pub fn new(session_id: u64, total: u64, start_ms: u64) -> (r: Self)
        ensures
            r.session_id == session_id,
            r.total == total,
            r.downloaded == 0,
            r.last_emit_ms == start_ms,
            r.last_bytes == 0,
    {
        ProgressTracker { session_id, total, downloaded: 0, last_emit_ms: start_ms, last_bytes: 0 }
    }

    /// Counts one chunk. When at least the report interval has passed since
    /// the last report, emits one: bytes so far, the total, the byte rate
    /// over the interval, and the percentage (zero if the total is
    /// unknown); the interval then restarts at `now_ms`.
    pub fn note_chunk(&mut self, chunk_len: usize, now_ms: u64) -> (r: Option<
        DownloadProgressEvent,
    >)
        requires
            old(self).downloaded + chunk_len <= u64::MAX,
            old(self).last_emit_ms <= now_ms,
            old(self).last_bytes <= old(self).downloaded,
        ensures
            final(self).session_id == old(self).session_id,
            final(self).total == old(self).total,
            final(self).downloaded == old(self).downloaded + chunk_len,
            now_ms - old(self).last_emit_ms >= PROGRESS_INTERVAL_MS ==> r == Some(
                DownloadProgressEvent {
                    session_id: old(self).session_id,
                    downloaded_size: (old(self).downloaded + chunk_len) as u64,
                    total_size: old(self).total,
                    speed: speed_spec(
                        ((old(self).downloaded + chunk_len) as u64 - old(self).last_bytes) as u64,
                        (now_ms - old(self).last_emit_ms) as u64,
                    ),
                    progress: percent_spec(
                        (old(self).downloaded + chunk_len) as u64,
                        old(self).total,
                    ),
                },
            ) && final(self).last_emit_ms == now_ms && final(self).last_bytes == final(self).downloaded,
            now_ms - old(self).last_emit_ms < PROGRESS_INTERVAL_MS ==> r is None && final(self).last_emit_ms == old(self).last_emit_ms && final(self).last_bytes == old(
                self,
            ).last_bytes,
            final(self).last_bytes <= final(self).downloaded,
    {
        self.downloaded = self.downloaded + (chunk_len as u64);
        let elapsed = now_ms - self.last_emit_ms;
        if elapsed >= PROGRESS_INTERVAL_MS {
            let interval_bytes = self.downloaded - self.last_bytes;
            let q: u128 = (interval_bytes as u128) * 1000 / (elapsed as u128);
            let speed: u64 = if q > (u64::MAX as u128) {
                u64::MAX
            } else {
                q as u64
            };
            let progress: u64 = if self.total == 0 {
                0
            } else {
                let p: u128 = (self.downloaded as u128) * 100 / (self.total as u128);
                if p > (u64::MAX as u128) {
                    u64::MAX
                } else {
                    p as u64
                }
            };
            let ev = DownloadProgressEvent {
                session_id: self.session_id,
                downloaded_size: self.downloaded,
                total_size: self.total,
                speed,
                progress,
            };
            self.last_emit_ms = now_ms;
            self.last_bytes = self.downloaded;
            Some(ev)
        } else {
            None
        }
    }

    /// The final report after a completed stream: the total is the byte
    /// count when it was unknown, the rate is zero, the percentage is one
    /// hundred.
    pub fn final_event(&self) -> (r: DownloadProgressEvent)
        ensures
            r.session_id == self.session_id,
            r.downloaded_size == self.downloaded,
            r.total_size == (if self.total > 0 {
                self.total
            } else {
                self.downloaded
            }),
            r.speed == 0,
            r.progress == 100,
    {
        DownloadProgressEvent {
            session_id: self.session_id,
            downloaded_size: self.downloaded,
            total_size: if self.total > 0 {
                self.total
            } else {
                self.downloaded
            },
            speed: 0,
            progress: 100,
        }
    }
}

/// The staging suffix appended to a destination path while a transfer runs:
/// ".downloading".
pub open spec fn staging_suffix() -> Seq<u8> {
    seq![0x2Eu8, 0x64, 0x6F, 0x77, 0x6E, 0x6C, 0x6F, 0x61, 0x64, 0x69, 0x6E, 0x67]
}

/// The staging path of a destination: the destination with the staging
/// suffix appended. Only this path may ever hold a partial file.
pub fn temp_download_path(save_path: &Vec<u8>) -> (r: Vec<u8>)
    ensures
        r@ == save_path@ + staging_suffix(),
{
    let mut r: Vec<u8> = Vec::new();
    push_all(&mut r, save_path);
    r.push(0x2E);
    r.push(0x64);
    r.push(0x6F);
    r.push(0x77);
    r.push(0x6E);
    r.push(0x6C);
    r.push(0x6F);
    r.push(0x61);
    r.push(0x64);
    r.push(0x69);
    r.push(0x6E);
    r.push(0x67);
    assert(r@ =~= save_path@ + staging_suffix());
    r
}

/// Cancels the live download: sets the shared flag and names the staging
/// file whose best-effort deletion the caller attempts (a failure there is
/// logged, not fatal).
pub fn cancel_download(control: &mut DownloadControl, save_path: &Vec<u8>) -> (r: Vec<u8>)
    ensures
        *final(control) == cancel_spec(*old(control)),
        r@ == save_path@ + staging_suffix(),
{
    control.cancel();
    temp_download_path(save_path)
}

/// The capped in-memory buffer of the streaming path: chunks accumulate
/// until the threshold is reached, then the whole buffer is handed out to
/// be written to the staging file.
pub struct ChunkBuffer {
    /// Bytes received and not yet flushed.
    pub pending: Vec<u8>,
}

/// What one chunk arrival does to the buffer: the chunk is appended; when
/// the threshold is reached the whole buffer is emitted and cleared.
/// Returns the pair of the emitted bytes and the new pending bytes.
pub open spec fn buf_step(pending: Seq<u8>, chunk: Seq<u8>) -> (Seq<u8>, Seq<u8>) {
    let q = pending + chunk;
    if q.len() >= FLUSH_THRESHOLD {
        (q, Seq::empty())
    } else {
        (Seq::empty(), q)
    }
}

/// The emitted bytes of a flush result.
pub open spec fn flushed_view(r: Option<Vec<u8>>) -> Seq<u8> {
    match r {
        Some(f) => f@,
        None => Seq::empty(),
    }
}

impl ChunkBuffer {
    /// An empty buffer.
    pub fn new() -> (r: Self)
        ensures
            r.pending@ == Seq::<u8>::empty(),
    {
        ChunkBuffer { pending: Vec::new() }
    }

    /// Receives one chunk. Returns the bytes to write to the staging file,
    /// if the threshold was reached.
    pub fn push_chunk(&mut self, chunk: &Vec<u8>) -> (r: Option<Vec<u8>>)
        ensures
            (flushed_view(r), final(self).pending@) == buf_step(old(self).pending@, chunk@),
            r matches Some(f) ==> f@.len() >= FLUSH_THRESHOLD,
    {
        push_all(&mut self.pending, chunk);
        if self.pending.len() >= FLUSH_THRESHOLD {
            let mut out: Vec<u8> = Vec::new();
            core::mem::swap(&mut out, &mut self.pending);
            Some(out)
        } else {
            None
        }
    }

    /// Hands out whatever remains to be written after the stream ended.
    pub fn finish(&mut self) -> (r: Vec<u8>)
        ensures
            r@ == old(self).pending@,
            final(self).pending@ == Seq::<u8>::empty(),
    {
        let mut out: Vec<u8> = Vec::new();
        core::mem::swap(&mut out, &mut self.pending);
        out
    }
}

/// All chunks of a stream, concatenated: the source bytes.
pub open spec fn concat_chunks(chunks: Seq<Seq<u8>>) -> Seq<u8>
    decreases chunks.len(),
{
    if chunks.len() == 0 {
        Seq::empty()
    } else {
        chunks.first() + concat_chunks(chunks.drop_first())
    }
}

/// Running a whole stream through the buffer: the pair of everything
/// emitted to the staging file and what remains pending at the end.
pub open spec fn run_chunks(pending: Seq<u8>, chunks: Seq<Seq<u8>>) -> (Seq<u8>, Seq<u8>)
    decreases chunks.len(),
{
    if chunks.len() == 0 {
        (Seq::empty(), pending)
    } else {
        let first = buf_step(pending, chunks.first());
        let rest = run_chunks(first.1, chunks.drop_first());
        (first.0 + rest.0, rest.1)
    }
}

/// The buffering path loses and invents nothing: over any stream, the bytes
/// flushed to the staging file followed by the final remainder are exactly
/// the initial pending bytes followed by the source bytes. With an empty
/// initial buffer, the destination file — the flushes plus the final
/// remainder — is byte-identical to the source.
pub proof fn lemma_buffer_preserves_stream(pending: Seq<u8>, chunks: Seq<Seq<u8>>)
    ensures
        run_chunks(pending, chunks).0 + run_chunks(pending, chunks).1 == pending + concat_chunks(
            chunks,
        ),
    decreases chunks.len(),
{
    if chunks.len() == 0 {
        assert(run_chunks(pending, chunks).0 + run_chunks(pending, chunks).1 =~= pending
            + concat_chunks(chunks));
    } else {
        let first = buf_step(pending, chunks.first());
        let rest = run_chunks(first.1, chunks.drop_first());
        lemma_buffer_preserves_stream(first.1, chunks.drop_first());
        assert(first.0 + first.1 =~= pending + chunks.first());
        assert((first.0 + rest.0) + rest.1 =~= first.0 + (rest.0 + rest.1));
        assert(first.0 + (first.1 + concat_chunks(chunks.drop_first())) =~= (first.0 + first.1)
            + concat_chunks(chunks.drop_first()));
        assert((pending + chunks.first()) + concat_chunks(chunks.drop_first()) =~= pending + (
        chunks.first() + concat_chunks(chunks.drop_first())));
    }
}

} // verus!
