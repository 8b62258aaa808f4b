//! The write protocol: one payload is sent as a fixed number of frames,
//! each a one-character marker followed by the whole payload, and each
//! followed by a pause as long, in milliseconds, as the frame has characters.

use vstd::prelude::*;
use vstd::string::StrSliceExecFns;
use vstd::string::StringExecFns;

verus! {

/// Number of frames sent for one payload.
pub const FRAME_COUNT: usize = 8;

/// Marker of the frame at `index`: `w` opens the sequence, `a` follows.
pub open spec fn marker(index: int) -> char {
    if index == 0 {
        'w'
    } else {
        'a'
    }
}

/// Text of the frame at `index` for `payload`.
pub open spec fn frame_text(index: int, payload: Seq<char>) -> Seq<char> {
    seq![marker(index)] + payload
}

/// Pause after a frame, in milliseconds: its length in characters.
pub open spec fn pacing_of(frame: Seq<char>) -> nat {
    frame.len()
}

/// Sum of the pauses after the first `n` frames for `payload`.
pub open spec fn total_pacing_upto(n: nat, payload: Seq<char>) -> nat
    decreases n,
{
    if n == 0 {
        0
    } else {
        total_pacing_upto((n - 1) as nat, payload) + pacing_of(frame_text(n - 1, payload))
    }
}

/// Sum of the pauses of a whole write sequence for `payload`.
pub open spec fn total_pacing(payload: Seq<char>) -> nat {
    total_pacing_upto(FRAME_COUNT as nat, payload)
}

/// Builds the frame at `index` for `payload`.
pub fn frame(index: usize, payload: &str) -> (r: String)
    ensures
        r@ == frame_text(index as int, payload@),
{
    let head: String = if index == 0 {
        String::from_str("w")
    } else {
        String::from_str("a")
    };
    proof {
        reveal_strlit("w");
        reveal_strlit("a");
    }
    let r = head.concat(payload);
    assert(r@ =~= frame_text(index as int, payload@));
    r
}

/// Builds every frame of a write sequence for `payload`, in sending order.
pub fn frames(payload: &str) -> (r: Vec<String>)
    ensures
        r@.len() == FRAME_COUNT,
        forall|i: int| 0 <= i < FRAME_COUNT ==> #[trigger] r@[i]@ == frame_text(i, payload@),
{
    let mut r: Vec<String> = Vec::new();
    let mut i: usize = 0;
    while i < FRAME_COUNT
        invariant
            i <= FRAME_COUNT,
            r@.len() == i,
            forall|j: int| 0 <= j < i ==> #[trigger] r@[j]@ == frame_text(j, payload@),
        decreases FRAME_COUNT - i,
    {
        r.push(frame(i, payload));
        i = i + 1;
    }
    r
}

/// Pause after `frame`, in milliseconds.
pub fn pacing_delay_ms(frame: &str) -> (r: u64)
    ensures
        r == pacing_of(frame@),
{
    frame.unicode_len() as u64
}

/// What the driver of a write sequence does next.
pub enum WriteAction {
    /// Write `frame` whole to the port, then pause `pause_ms` milliseconds.
    Send { frame: String, pause_ms: u64 },
    /// Every frame went out: report the elapsed time.
    Finished,
    /// A write failed: the sequence ends here, nothing is resent.
    Aborted,
}

/// Progress of one write sequence: the payload, how many frames were
/// written, and whether a write failed.
pub struct WriteSequence {
    payload: String,
    sent: usize,
    failed: bool,
}

impl WriteSequence {
    pub closed spec fn payload(&self) -> Seq<char> {
        self.payload@
    }

    /// Number of frames written so far.
    pub closed spec fn sent(&self) -> nat {
        self.sent as nat
    }

    pub closed spec fn failed(&self) -> bool {
        self.failed
    }

    pub closed spec fn wf(&self) -> bool {
        self.sent <= FRAME_COUNT
    }

    /// True once no more frame will be sent.
    pub open spec fn done(&self) -> bool {
        self.failed() || self.sent() == FRAME_COUNT
    }

    /// The action owed in the state `self`.
    pub open spec fn action_spec(&self, a: WriteAction) -> bool {
        if self.failed() {
            a is Aborted
        } else if self.sent() == FRAME_COUNT {
            a is Finished
        } else {
            match a {
                WriteAction::Send { frame, pause_ms } => {
                    &&& frame@ == frame_text(self.sent() as int, self.payload())
                    &&& pause_ms == pacing_of(frame@)
                },
                _ => false,
            }
        }
    }

    /// Starts a sequence for `payload`: nothing sent yet.
    pub fn new(payload: String) -> (r: WriteSequence)
        ensures
            r.wf(),
            r.payload() == payload@,
            r.sent() == 0,
            !r.failed(),
    {
        WriteSequence { payload, sent: 0, failed: false }
    }

    /// The next thing to do: send the next frame, or stop.
    pub fn next_action(&self) -> (r: WriteAction)
        requires
            self.wf(),
        ensures
            self.action_spec(r),
    {
        if self.failed {
            WriteAction::Aborted
        } else if self.sent == FRAME_COUNT {
            WriteAction::Finished
        } else {
            let f = frame(self.sent, self.payload.as_str());
            let pause_ms = pacing_delay_ms(f.as_str());
            WriteAction::Send { frame: f, pause_ms }
        }
    }

    /// Records how the write of the frame just handed out went.
    pub fn record_write(&mut self, written: bool)
        requires
            old(self).wf(),
            !old(self).done(),
        ensures
            final(self).wf(),
            final(self).payload() == old(self).payload(),
            written ==> final(self).sent() == old(self).sent() + 1 && !final(self).failed(),
            !written ==> final(self).sent() == old(self).sent() && final(self).failed(),
    {
        if written {
            self.sent = self.sent + 1;
        } else {
            self.failed = true;
        }
    }
}

/// While no write has failed, the action owed after `k` written frames is
/// to send frame `k`, fixed by `k` and the payload alone, with a pause of
/// one more millisecond than the payload has characters; after eight frames
/// the sequence is finished. So a sequence sends exactly eight frames.
pub proof fn lemma_unfailed_progress(w: WriteSequence, a: WriteAction)
    requires
        w.wf(),
        !w.failed(),
        w.action_spec(a),
    ensures
        w.sent() < FRAME_COUNT ==> (a matches WriteAction::Send { frame, pause_ms } && frame@
            == frame_text(w.sent() as int, w.payload()) && pause_ms == w.payload().len() + 1),
        w.sent() == FRAME_COUNT ==> a is Finished,
        w.sent() <= FRAME_COUNT,
{
}

/// Every frame of a sequence carries the whole payload: the first behind
/// `w`, each later one behind `a`.
pub proof fn lemma_frame_markers(payload: Seq<char>)
    ensures
        frame_text(0, payload) == seq!['w'] + payload,
        forall|i: int| 1 <= i < FRAME_COUNT ==> #[trigger] frame_text(i, payload) == seq!['a'] + payload,
        forall|i: int| 0 <= i < FRAME_COUNT ==> (#[trigger] frame_text(i, payload)).len() == payload.len() + 1,
{
}

/// The pauses of a whole sequence add up to the lengths of its frames:
/// eight times one more than the payload's length.
pub proof fn lemma_total_pacing(payload: Seq<char>)
    ensures
        total_pacing(payload) == FRAME_COUNT * (payload.len() + 1),
{
    reveal_with_fuel(total_pacing_upto, 9);
}

} // verus!
