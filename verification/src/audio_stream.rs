//! Microphone audio on its way to a streaming recogniser. AssemblyAI and
//! Deepgram: audio recorded before the provider confirmed the session is
//! held back, audio after it goes out in fixed-size chunks, and the last
//! frame carries whatever is left. Tencent Cloud: audio is only taken while
//! the session runs, and the rest is flushed before the end message.
//! Nothing taken in is lost or reordered: what was sent plus what is held
//! is always everything taken in since the last cancel.
use vstd::prelude::*;

use crate::asr::{drain_audio_chunks, lemma_chunks_lossless, spec_chunks};

verus! {

/// The bytes of chunks, one after the other.
pub open spec fn sent_bytes(chunks: Seq<Vec<u8>>) -> Seq<u8> {
    chunks.map_values(|c: Vec<u8>| c@).flatten()
}

/// Audio bookkeeping of one streaming session.
pub struct StreamAudio {
    bytes_received: u64,
    session_started: bool,
    finishing: bool,
    chunk_bytes: usize,
    pending_audio: Vec<u8>,
    audio_scratch: Vec<u8>,
}

impl StreamAudio {
    /// PCM bytes recorded, saturating.
    pub closed spec fn received(&self) -> int {
        self.bytes_received as int
    }

    /// The provider confirmed the session; audio may go out.
    pub closed spec fn started(&self) -> bool {
        self.session_started
    }

    /// The last frame was taken: the session is ending.
    pub closed spec fn ending(&self) -> bool {
        self.finishing
    }

    /// Size of the chunks sent while recording.
    pub closed spec fn chunk_size(&self) -> int {
        self.chunk_bytes as int
    }

    /// The audio recorded but not sent yet, in order.
    pub closed spec fn held(&self) -> Seq<u8> {
        self.pending_audio@ + self.audio_scratch@
    }

    /// Before the session starts everything is held back; after it, less
    /// than one chunk waits.
    pub closed spec fn well_formed(&self) -> bool {
        &&& self.chunk_bytes > 0
        &&& !self.session_started ==> self.audio_scratch@.len() == 0
        &&& self.session_started ==> self.pending_audio@.len() == 0 && self.audio_scratch@.len()
            < self.chunk_bytes
    }

    /// A session that sends `chunk_bytes`-byte chunks, with nothing
    /// recorded yet.
    pub fn new(chunk_bytes: usize) -> (r: Self)
        requires
            chunk_bytes > 0,
        ensures
            r.well_formed(),
            r.chunk_size() == chunk_bytes,
            r.held().len() == 0,
            r.received() == 0,
            !r.started(),
            !r.ending(),
    {
        StreamAudio {
            bytes_received: 0,
            session_started: false,
            finishing: false,
            chunk_bytes,
            pending_audio: Vec::new(),
            audio_scratch: Vec::new(),
        }
    }

    proof fn lemma_drained(b: Seq<u8>, size: int, chunks: Seq<Vec<u8>>, rest: Seq<u8>)
        requires
            size > 0,
            chunks.len() == spec_chunks(b, size).len(),
            forall|i: int| 0 <= i < chunks.len() ==> (#[trigger] chunks[i])@ == spec_chunks(b, size)[i],
            rest == b.subrange(chunks.len() * size, b.len() as int),
        ensures
            sent_bytes(chunks) + rest == b,
            forall|i: int| 0 <= i < chunks.len() ==> (#[trigger] chunks[i])@.len() == size,
    {
        assert(chunks.map_values(|c: Vec<u8>| c@) =~= spec_chunks(b, size));
        lemma_chunks_lossless(b, size);
        assert forall|i: int| 0 <= i < chunks.len() implies (#[trigger] chunks[i])@.len() == size by {
            assert((i + 1) * size == i * size + size) by (nonlinear_arith);
            assert((i + 1) * size <= b.len()) by (nonlinear_arith)
                requires
                    0 <= i < chunks.len(),
                    chunks.len() == (b.len() as int) / size,
                    size > 0,
            ;
            assert(0 <= i * size) by (nonlinear_arith)
                requires
                    0 <= i,
                    size > 0,
            ;
        }
    }

    /// Takes in recorded PCM. Before the session starts it is held back;
    /// after, every complete chunk is returned for sending.
    pub fn consume_pcm_chunk(&mut self, pcm: &[u8]) -> (chunks: Vec<Vec<u8>>)
        requires
            old(self).well_formed(),
        ensures
            final(self).well_formed(),
            sent_bytes(chunks@) + final(self).held() == old(self).held() + pcm@,
            forall|i: int| 0 <= i < chunks@.len() ==> (#[trigger] chunks@[i])@.len() == old(self).chunk_size(),
            !old(self).started() ==> chunks@.len() == 0,
            final(self).received() == (if pcm@.len() == 0 {
                old(self).received() as int
            } else if old(self).received() + pcm@.len() > u64::MAX {
                u64::MAX as int
            } else {
                old(self).received() + pcm@.len()
            }),
            final(self).started() == old(self).started(),
            final(self).ending() == old(self).ending(),
            final(self).chunk_size() == old(self).chunk_size(),
    {
        if pcm.len() == 0 {
            proof {
                assert(sent_bytes(Seq::<Vec<u8>>::empty()) =~= Seq::<u8>::empty());
                assert(self.held() + pcm@ =~= self.held());
            }
            return Vec::new();
        }
        let n = pcm.len() as u64;
        self.bytes_received = if self.bytes_received > u64::MAX - n {
            u64::MAX
        } else {
            self.bytes_received + n
        };
        if !self.session_started {
            self.pending_audio.extend_from_slice(pcm);
            proof {
                assert(self.pending_audio@ =~= old(self).pending_audio@ + pcm@);
                assert(sent_bytes(Seq::<Vec<u8>>::empty()) =~= Seq::<u8>::empty());
                assert(self.held() =~= old(self).held() + pcm@);
            }
            return Vec::new();
        }
        self.audio_scratch.extend_from_slice(pcm);
        let ghost b = self.audio_scratch@;
        assert(b =~= old(self).audio_scratch@ + pcm@);
        let chunks = drain_audio_chunks(&mut self.audio_scratch, self.chunk_bytes);
        proof {
            Self::lemma_drained(b, self.chunk_bytes as int, chunks@, self.audio_scratch@);
            assert(old(self).held() =~= old(self).audio_scratch@);
            assert(self.held() =~= self.audio_scratch@);
        }
        chunks
    }

    /// The provider confirmed the session: the held-back audio goes out in
    /// complete chunks.
    pub fn mark_session_started(&mut self) -> (chunks: Vec<Vec<u8>>)
        requires
            old(self).well_formed(),
        ensures
            final(self).well_formed(),
            final(self).started(),
            sent_bytes(chunks@) + final(self).held() == old(self).held(),
            forall|i: int| 0 <= i < chunks@.len() ==> (#[trigger] chunks@[i])@.len() == old(self).chunk_size(),
            final(self).received() == old(self).received(),
            final(self).ending() == old(self).ending(),
            final(self).chunk_size() == old(self).chunk_size(),
    {
        self.session_started = true;
        let mut pending: Vec<u8> = Vec::new();
        std::mem::swap(&mut pending, &mut self.pending_audio);
        self.audio_scratch.append(&mut pending);
        let ghost b = self.audio_scratch@;
        assert(b =~= old(self).held());
        let chunks = drain_audio_chunks(&mut self.audio_scratch, self.chunk_bytes);
        proof {
            Self::lemma_drained(b, self.chunk_bytes as int, chunks@, self.audio_scratch@);
            assert(self.held() =~= self.audio_scratch@);
        }
        chunks
    }

    /// The session is ending: everything still held is returned as the
    /// last audio frame (empty when nothing is left).
    pub fn take_last_frame(&mut self) -> (tail: Vec<u8>)
        requires
            old(self).well_formed(),
        ensures
            final(self).well_formed(),
            tail@ == old(self).held(),
            final(self).held().len() == 0,
            final(self).ending(),
            final(self).started() == old(self).started(),
            final(self).received() == old(self).received(),
            final(self).chunk_size() == old(self).chunk_size(),
    {
        let mut tail: Vec<u8> = Vec::new();
        std::mem::swap(&mut tail, &mut self.pending_audio);
        let mut scratch: Vec<u8> = Vec::new();
        std::mem::swap(&mut scratch, &mut self.audio_scratch);
        tail.append(&mut scratch);
        self.finishing = true;
        proof {
            assert(self.held() =~= Seq::<u8>::empty());
        }
        tail
    }

    /// Drops all held audio.
    pub fn cancel(&mut self)
        requires
            old(self).well_formed(),
        ensures
            final(self).well_formed(),
            final(self).held().len() == 0,
            final(self).started() == old(self).started(),
            final(self).ending() == old(self).ending(),
            final(self).received() == old(self).received(),
            final(self).chunk_size() == old(self).chunk_size(),
    {
        self.pending_audio.clear();
        self.audio_scratch.clear();
        proof {
            assert(self.held() =~= Seq::<u8>::empty());
        }
    }

    /// PCM bytes recorded, saturating.
    pub fn bytes_received(&self) -> (r: u64)
        ensures
            r == self.received(),
    {
        self.bytes_received
    }

    /// Whether the provider confirmed the session.
    pub fn session_started(&self) -> (r: bool)
        ensures
            r == self.started(),
    {
        self.session_started
    }

    /// Whether the last frame was taken.
    pub fn finishing(&self) -> (r: bool)
        ensures
            r == self.ending(),
    {
        self.finishing
    }

    /// How many bytes are held back or waiting for a full chunk.
    pub fn held_len(&self) -> (r: usize)
        requires
            self.well_formed(),
        ensures
            r == self.held().len(),
    {
        self.pending_audio.len() + self.audio_scratch.len()
    }
}

/// Audio bookkeeping of a Tencent Cloud session.
pub struct TencentStreamAudio {
    chunk_bytes: usize,
    pending_audio: Vec<u8>,
    bytes_sent: u64,
    started: bool,
    finished: bool,
}

impl TencentStreamAudio {
    pub closed spec fn chunk_size(&self) -> int {
        self.chunk_bytes as int
    }

    /// Audio taken in but not sent yet.
    pub closed spec fn held(&self) -> Seq<u8> {
        self.pending_audio@
    }

    /// Bytes handed out for sending so far.
    pub closed spec fn sent(&self) -> int {
        self.bytes_sent as int
    }

    /// The session ended; no audio is taken any more.
    pub closed spec fn done(&self) -> bool {
        self.finished
    }

    /// Audio is taken in while the session is started and not finished.
    pub closed spec fn accepting(&self) -> bool {
        self.started && !self.finished
    }

    pub closed spec fn well_formed(&self) -> bool {
        self.chunk_bytes > 0 && self.pending_audio@.len() < self.chunk_bytes
    }

    /// A session that sends `chunk_bytes`-byte chunks, not started yet.
    pub fn new(chunk_bytes: usize) -> (r: Self)
        requires
            chunk_bytes > 0,
        ensures
            r.well_formed(),
            r.chunk_size() == chunk_bytes,
            r.held().len() == 0,
            r.sent() == 0,
            !r.accepting(),
    {
        TencentStreamAudio { chunk_bytes, pending_audio: Vec::new(), bytes_sent: 0, started: false, finished: false }
    }

    /// The handshake succeeded: audio is taken in from now on (unless the
    /// session already finished).
    pub fn mark_started(&mut self)
        ensures
            final(self).accepting() == !old(self).done(),
            final(self).done() == old(self).done(),
            final(self).held() == old(self).held(),
            final(self).sent() == old(self).sent(),
            final(self).chunk_size() == old(self).chunk_size(),
            final(self).well_formed() == old(self).well_formed(),
    {
        self.started = true;
    }

    /// The session ended (final result or failure): no more audio is taken.
    pub fn mark_finished(&mut self)
        ensures
            !final(self).accepting(),
            final(self).done(),
            final(self).held() == old(self).held(),
            final(self).sent() == old(self).sent(),
            final(self).chunk_size() == old(self).chunk_size(),
            final(self).well_formed() == old(self).well_formed(),
    {
        self.finished = true;
    }

    /// Takes in recorded PCM while the session runs (dropping it
    /// otherwise) and returns every complete chunk for sending.
    pub fn consume_pcm_chunk(&mut self, pcm: &[u8]) -> (chunks: Vec<Vec<u8>>)
        requires
            old(self).well_formed(),
            old(self).sent() + old(self).held().len() + pcm@.len() <= u64::MAX,
        ensures
            final(self).well_formed(),
            sent_bytes(chunks@) + final(self).held() == old(self).held() + (if old(self).accepting() {
                pcm@
            } else {
                Seq::empty()
            }),
            forall|i: int| 0 <= i < chunks@.len() ==> (#[trigger] chunks@[i])@.len() == old(self).chunk_size(),
            final(self).sent() == old(self).sent() + sent_bytes(chunks@).len(),
            final(self).accepting() == old(self).accepting(),
            final(self).done() == old(self).done(),
            final(self).chunk_size() == old(self).chunk_size(),
    {
        if !self.started || self.finished {
            proof {
                assert(sent_bytes(Seq::<Vec<u8>>::empty()) =~= Seq::<u8>::empty());
                assert(self.held() + Seq::<u8>::empty() =~= self.held());
            }
            return Vec::new();
        }
        self.pending_audio.extend_from_slice(pcm);
        let ghost b = self.pending_audio@;
        assert(b =~= old(self).pending_audio@ + pcm@);
        let before = self.pending_audio.len();
        let chunks = drain_audio_chunks(&mut self.pending_audio, self.chunk_bytes);
        proof {
            StreamAudio::lemma_drained(b, self.chunk_bytes as int, chunks@, self.pending_audio@);
            assert(sent_bytes(chunks@).len() + self.pending_audio@.len() == b.len());
        }
        let sent_now = before - self.pending_audio.len();
        self.bytes_sent = self.bytes_sent + sent_now as u64;
        chunks
    }

    /// Before the end message: whatever is held goes out as one last frame
    /// (`None` when nothing is held).
    pub fn flush_pending_audio(&mut self) -> (leftover: Option<Vec<u8>>)
        requires
            old(self).well_formed(),
            old(self).sent() + old(self).held().len() <= u64::MAX,
        ensures
            final(self).well_formed(),
            match leftover {
                Some(l) => l@ == old(self).held() && l@.len() > 0,
                None => old(self).held().len() == 0,
            },
            final(self).held().len() == 0,
            final(self).sent() == old(self).sent() + old(self).held().len(),
            final(self).accepting() == old(self).accepting(),
            final(self).done() == old(self).done(),
            final(self).chunk_size() == old(self).chunk_size(),
    {
        if self.pending_audio.len() == 0 {
            return None;
        }
        let mut leftover: Vec<u8> = Vec::new();
        std::mem::swap(&mut leftover, &mut self.pending_audio);
        self.bytes_sent = self.bytes_sent + leftover.len() as u64;
        Some(leftover)
    }

    /// Drops the held audio.
    pub fn cancel(&mut self)
        ensures
            final(self).held().len() == 0,
            final(self).sent() == old(self).sent(),
            final(self).accepting() == old(self).accepting(),
            final(self).done() == old(self).done(),
            final(self).chunk_size() == old(self).chunk_size(),
            old(self).well_formed() ==> final(self).well_formed(),
    {
        self.pending_audio.clear();
    }

    /// Bytes handed out for sending so far.
    pub fn bytes_sent(&self) -> (r: u64)
        ensures
            r == self.sent(),
    {
        self.bytes_sent
    }

    /// How many bytes wait for a full chunk.
    pub fn held_len(&self) -> (r: usize)
        ensures
            r == self.held().len(),
    {
        self.pending_audio.len()
    }
}

} // verus!
