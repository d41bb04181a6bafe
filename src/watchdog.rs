use vstd::prelude::*;
use crate::fault::ReleaseChannel;
use crate::symbols::RawFrame;

verus! {

/// Largest number of frames a capture keeps.
pub const MAX_CAPTURED_FRAMES: usize = 100;

/// How many heartbeats may wait undrained before the primary thread counts as hung.
pub const HEARTBEAT_CAPACITY: usize = 3;

/// Whether the stall watchdog runs: only with diagnostics on, and only on channels
/// before stable.
pub fn hang_monitor_enabled(channel: ReleaseChannel, diagnostics: bool) -> (r: bool)
    ensures
        r <==> diagnostics && channel != ReleaseChannel::Stable,
{
    diagnostics && channel != ReleaseChannel::Stable
}

/// What came of one attempt to queue a heartbeat for the primary thread.
#[derive(Clone, Copy, Debug, PartialEq, Eq, Structural)]
pub enum SendOutcome {
    Sent,
    /// The queue is full: the primary thread has not drained it for a whole window.
    Full,
    /// The primary thread's end of the queue is gone.
    Closed,
}

/// What the probing task does after a heartbeat attempt.
#[derive(Clone, Copy, Debug, PartialEq, Eq, Structural)]
pub enum ProbeAction {
    /// Wait one interval and probe again.
    Continue,
    /// Signal the primary thread to capture its stack; probing is over.
    Capture,
    /// Probing is over.
    Stop,
}

/// The probing task: it stops at the first heartbeat that cannot be queued.
pub struct Prober {
    pub stopped: bool,
}

pub open spec fn probe_spec(stopped: bool, outcome: SendOutcome) -> (ProbeAction, bool) {
    if stopped {
        (ProbeAction::Stop, true)
    } else {
        match outcome {
            SendOutcome::Sent => (ProbeAction::Continue, false),
            SendOutcome::Full => (ProbeAction::Capture, true),
            SendOutcome::Closed => (ProbeAction::Stop, true),
        }
    }
}

impl Prober {
    pub fn new() -> (r: Prober)
        ensures
            !r.stopped,
    {
        Prober { stopped: false }
    }

    /// Decides on the outcome of one heartbeat attempt.
    pub fn probe(&mut self, outcome: SendOutcome) -> (r: ProbeAction)
        ensures
            (r, final(self).stopped) == probe_spec(old(self).stopped, outcome),
    {
        if self.stopped {
            return ProbeAction::Stop;
        }
        match outcome {
            SendOutcome::Sent => ProbeAction::Continue,
            SendOutcome::Full => {
                self.stopped = true;
                ProbeAction::Capture
            },
            SendOutcome::Closed => {
                self.stopped = true;
                ProbeAction::Stop
            },
        }
    }
}

/// The actions of `k` probes against a queue of `capacity` slots that holds `queued`
/// heartbeats and is never drained.
pub open spec fn stalled_run(stopped: bool, queued: nat, capacity: nat, k: nat) -> Seq<ProbeAction>
    decreases k,
{
    if k == 0 {
        Seq::empty()
    } else {
        let outcome = if queued < capacity { SendOutcome::Sent } else { SendOutcome::Full };
        let (a, s) = probe_spec(stopped, outcome);
        seq![a] + stalled_run(s, if queued < capacity { queued + 1 } else { queued }, capacity, (k - 1) as nat)
    }
}

proof fn lemma_run_len(stopped: bool, queued: nat, capacity: nat, k: nat)
    ensures
        stalled_run(stopped, queued, capacity, k).len() == k,
    decreases k,
{
    if k > 0 {
        let outcome = if queued < capacity { SendOutcome::Sent } else { SendOutcome::Full };
        let s = probe_spec(stopped, outcome).1;
        lemma_run_len(s, if queued < capacity { queued + 1 } else { queued }, capacity, (k - 1) as nat);
    }
}

proof fn lemma_stopped_run(queued: nat, capacity: nat, k: nat)
    ensures
        forall|i: int| 0 <= i < k ==> stalled_run(true, queued, capacity, k)[i] == ProbeAction::Stop,
    decreases k,
{
    if k > 0 {
        let q2 = if queued < capacity { queued + 1 } else { queued };
        lemma_stopped_run(q2, capacity, (k - 1) as nat);
        lemma_run_len(true, q2, capacity, (k - 1) as nat);
        let r = stalled_run(true, queued, capacity, k);
        assert forall|i: int| 0 <= i < k implies r[i] == ProbeAction::Stop by {
            if i > 0 {
                assert(r[i] == stalled_run(true, q2, capacity, (k - 1) as nat)[i - 1]);
            }
        };
    }
}

/// Once the primary thread stops draining a queue of `capacity` slots that holds
/// `queued` heartbeats, the probe numbered `capacity - queued` (counting from zero)
/// triggers a capture, and no other probe does: a stall is captured once, within
/// `capacity + 1` probes.
pub proof fn lemma_stall_captured_once(queued: nat, capacity: nat, k: nat)
    requires
        queued <= capacity,
    ensures
        stalled_run(false, queued, capacity, k).len() == k,
        forall|i: int| 0 <= i < k ==> (#[trigger] stalled_run(false, queued, capacity, k)[i] == ProbeAction::Capture <==> i == capacity - queued),
    decreases k,
{
    lemma_run_len(false, queued, capacity, k);
    if k > 0 {
        let r = stalled_run(false, queued, capacity, k);
        if queued < capacity {
            lemma_stall_captured_once(queued + 1, capacity, (k - 1) as nat);
            assert forall|i: int| 0 <= i < k implies (#[trigger] r[i] == ProbeAction::Capture <==> i == capacity - queued) by {
                if i > 0 {
                    assert(r[i] == stalled_run(false, queued + 1, capacity, (k - 1) as nat)[i - 1]);
                }
            };
        } else {
            lemma_stopped_run(queued, capacity, (k - 1) as nat);
            lemma_run_len(true, queued, capacity, (k - 1) as nat);
            assert forall|i: int| 0 <= i < k implies (#[trigger] r[i] == ProbeAction::Capture <==> i == capacity - queued) by {
                if i > 0 {
                    assert(r[i] == stalled_run(true, queued, capacity, (k - 1) as nat)[i - 1]);
                }
            };
        }
    }
}

/// Where the one-shot stack capture stands.
#[derive(Clone, Copy, Debug, PartialEq, Eq, Structural)]
pub enum CaptureState {
    /// The handler is installed and waits for the signal.
    Armed,
    /// The handler runs, on the stalled thread, and records frames.
    Recording,
    /// The handler is done and has removed itself; the frames wait to be taken.
    Ready,
    /// The frames were taken and are being resolved, outside the handler.
    Resolving,
}

/// The buffer that the signal handler fills, owned in turn by the handler (while
/// `Recording`) and by the resolving task (from `Ready` until it re-arms).
pub struct CaptureSlot {
    state: CaptureState,
    frames: Vec<RawFrame>,
}

impl CaptureSlot {
    pub closed spec fn state_spec(&self) -> CaptureState {
        self.state
    }

    pub closed spec fn frames_spec(&self) -> Seq<RawFrame> {
        self.frames@
    }

    pub open spec fn wf(&self) -> bool {
        self.frames_spec().len() <= MAX_CAPTURED_FRAMES
    }

    /// An armed slot with room reserved for a whole capture, so that recording never allocates.
    pub fn new() -> (r: CaptureSlot)
        ensures
            r.wf(),
            r.state_spec() == CaptureState::Armed,
            r.frames_spec().len() == 0,
    {
        CaptureSlot { state: CaptureState::Armed, frames: Vec::with_capacity(MAX_CAPTURED_FRAMES) }
    }

    pub fn state(&self) -> (r: CaptureState)
        ensures
            r == self.state_spec(),
    {
        self.state
    }

    /// The signal arrived: an armed slot starts recording, with no frames, and disarms
    /// itself; any other slot ignores it.
    pub fn fire(&mut self) -> (r: bool)
        requires
            old(self).wf(),
        ensures
            final(self).wf(),
            r <==> old(self).state_spec() == CaptureState::Armed,
            r ==> final(self).state_spec() == CaptureState::Recording && final(self).frames_spec().len() == 0,
            !r ==> *final(self) == *old(self),
    {
        if self.state == CaptureState::Armed {
            self.state = CaptureState::Recording;
            self.frames.clear();
            true
        } else {
            false
        }
    }

    /// Records one frame while there is room, and says whether there is room for more.
    pub fn record(&mut self, frame: RawFrame) -> (r: bool)
        requires
            old(self).wf(),
            old(self).state_spec() == CaptureState::Recording,
        ensures
            final(self).wf(),
            final(self).state_spec() == CaptureState::Recording,
            old(self).frames_spec().len() < MAX_CAPTURED_FRAMES ==> final(self).frames_spec() == old(self).frames_spec().push(frame),
            old(self).frames_spec().len() >= MAX_CAPTURED_FRAMES ==> final(self).frames_spec() == old(self).frames_spec(),
            r <==> final(self).frames_spec().len() < MAX_CAPTURED_FRAMES,
    {
        if self.frames.len() < MAX_CAPTURED_FRAMES {
            self.frames.push(frame);
        }
        self.frames.len() < MAX_CAPTURED_FRAMES
    }

    /// The handler is done recording.
    pub fn finish(&mut self)
        requires
            old(self).wf(),
            old(self).state_spec() == CaptureState::Recording,
        ensures
            final(self).wf(),
            final(self).state_spec() == CaptureState::Ready,
            final(self).frames_spec() == old(self).frames_spec(),
    {
        self.state = CaptureState::Ready;
    }

    /// Hands the recorded frames to the resolving task; only a finished capture gives any.
    pub fn take(&mut self) -> (r: Option<Vec<RawFrame>>)
        requires
            old(self).wf(),
        ensures
            final(self).wf(),
            old(self).state_spec() == CaptureState::Ready ==> (r matches Some(v) && v@ == old(self).frames_spec())
                && final(self).state_spec() == CaptureState::Resolving && final(self).frames_spec().len() == 0,
            old(self).state_spec() != CaptureState::Ready ==> r is None && *final(self) == *old(self),
    {
        if self.state == CaptureState::Ready {
            let mut out: Vec<RawFrame> = Vec::with_capacity(MAX_CAPTURED_FRAMES);
            std::mem::swap(&mut out, &mut self.frames);
            self.state = CaptureState::Resolving;
            Some(out)
        } else {
            None
        }
    }

    /// Installs the handler again once the taken frames are resolved.
    pub fn rearm(&mut self) -> (r: bool)
        requires
            old(self).wf(),
        ensures
            final(self).wf(),
            r <==> old(self).state_spec() == CaptureState::Resolving,
            r ==> final(self).state_spec() == CaptureState::Armed,
            !r ==> *final(self) == *old(self),
    {
        if self.state == CaptureState::Resolving {
            self.state = CaptureState::Armed;
            true
        } else {
            false
        }
    }
}

} // verus!
