//! The mathematical model of an animation graph: its maps, its playback
//! cursor, and the transitions that `next_frame` and `set_state` perform.

use vstd::prelude::*;
use crate::state::{AnimOrientation, AnimState};
use vstd::arithmetic::div_mod::{lemma_mod_add_multiples_vanish, lemma_small_mod};

verus! {

/// Timing and priority of one animation state: the first sprite-sheet cell,
/// the number of frames, and the priority against competing requests.
#[derive(Debug, Eq, PartialEq, Structural, Hash, Copy, Clone)]
pub struct AnimElement {
    pub start: u32,
    pub length: u32,
    pub priority: i32,
}

impl AnimElement {
    /// At least one frame, and every cell `start .. start + length` fits in `u32`.
    pub open spec fn playable(self) -> bool {
        &&& self.length >= 1
        &&& self.start as int + self.length as int <= u32::MAX as int + 1
    }

    pub fn is_playable(&self) -> (r: bool)
        ensures
            r == self.playable(),
    {
        self.length >= 1 && (self.start as u64) + (self.length as u64) <= 0x1_0000_0000u64
    }
}

impl Default for AnimElement {
    fn default() -> (r: AnimElement)
        ensures
            r == (AnimElement { start: 0, length: 1, priority: 0 }),
    {
        AnimElement { priority: 0, start: 0, length: 1 }
    }
}

/// Abstract value of an animation graph.
pub struct AnimationModel {
    /// Default successor of a state once its frames run out.
    pub graph: Map<AnimState, AnimState>,
    /// Timing and priority of each known state.
    pub data: Map<AnimState, AnimElement>,
    /// The state playing now.
    pub current: AnimState,
    /// A state queued to take over when the current one finishes.
    pub next: Option<AnimState>,
    /// Frames elapsed since `current` was entered.
    pub index: nat,
    /// While set, advancing a frame changes nothing.
    pub paused: bool,
}

impl AnimationModel {
    /// Data of the current state.
    pub open spec fn element(self) -> AnimElement {
        self.data[self.current]
    }

    /// Every state the cursor can reach has playable data, and the frame
    /// index lies within the current state.
    pub open spec fn wf(self) -> bool {
        &&& self.data.contains_key(self.current)
        &&& forall|s: AnimState| #[trigger]
            self.data.contains_key(s) ==> self.data[s].playable()
        &&& forall|s: AnimState| #[trigger]
            self.graph.contains_key(s) && self.data.contains_key(s) ==> self.data.contains_key(
                self.graph[s],
            )
        &&& (self.next matches Some(n) ==> self.data.contains_key(n))
        &&& self.index < self.element().length
    }

    /// The sprite-sheet cell shown now.
    pub open spec fn resolved(self) -> int {
        self.element().start + self.index
    }

    /// Enters `s` at frame zero; a state with no successor yet gets itself.
    pub open spec fn enter(self, s: AnimState) -> AnimationModel {
        AnimationModel {
            graph: if self.graph.contains_key(s) {
                self.graph
            } else {
                self.graph.insert(s, s)
            },
            current: s,
            index: 0,
            ..self
        }
    }

    /// The change when the current state's frames run out: the queued state
    /// first, else the graph's successor, else the same state from frame zero.
    pub open spec fn finish(self) -> AnimationModel {
        match self.next {
            Some(s) => AnimationModel { next: None, ..self.enter(s) },
            None => if self.graph.contains_key(self.current) {
                self.enter(self.graph[self.current])
            } else {
                AnimationModel { index: 0, ..self }
            },
        }
    }

    /// One frame advance.
    pub open spec fn advance(self) -> AnimationModel {
        if self.paused {
            self
        } else if self.index + 1 == self.element().length {
            self.finish()
        } else {
            AnimationModel { index: self.index + 1, ..self }
        }
    }

    /// A request to play `s`: ignored for the current state or a state
    /// without data; a higher priority takes over and queues the interrupted
    /// state; an equal priority takes over; a lower one is queued.
    pub open spec fn request(self, s: AnimState) -> AnimationModel {
        if s == self.current || !self.data.contains_key(s) {
            self
        } else if self.data[s].priority > self.element().priority {
            AnimationModel { next: Some(self.current), ..self.enter(s) }
        } else if self.data[s].priority == self.element().priority {
            self.enter(s)
        } else {
            AnimationModel { next: Some(s), ..self }
        }
    }

    pub open spec fn with_paused(self, paused: bool) -> AnimationModel {
        AnimationModel { paused, ..self }
    }

    /// The value after `n` frame advances.
    pub open spec fn after(self, n: nat) -> AnimationModel
        decreases n,
    {
        if n == 0 {
            self
        } else {
            self.after((n - 1) as nat).advance()
        }
    }

    /// The cells that `n` successive frame advances return.
    pub open spec fn frames(self, n: nat) -> Seq<int>
        decreases n,
    {
        if n == 0 {
            Seq::empty()
        } else {
            seq![self.resolved()] + self.advance().frames((n - 1) as nat)
        }
    }

    /// One state, the default one, looping on itself over `length` frames.
    pub open spec fn synthetic(length: u32) -> AnimationModel {
        let d = AnimState::Idle(AnimOrientation::Down);
        AnimationModel {
            graph: map![d => d],
            data: map![d => AnimElement { start: 0, length, priority: 0 }],
            current: d,
            next: None,
            index: 0,
            paused: false,
        }
    }

    /// One state, the default one, with default data, looping on itself.
    pub open spec fn default_model() -> AnimationModel {
        let d = AnimState::Idle(AnimOrientation::Down);
        AnimationModel {
            graph: map![d => d],
            data: map![d => AnimElement { start: 0, length: 1, priority: 0 }],
            current: d,
            next: None,
            index: 0,
            paused: false,
        }
    }
}

/// Advancing a frame keeps the model well formed.
pub proof fn lemma_advance_wf(m: AnimationModel)
    requires
        m.wf(),
    ensures
        m.advance().wf(),
{
}

/// Requesting a state keeps the model well formed.
pub proof fn lemma_request_wf(m: AnimationModel, s: AnimState)
    requires
        m.wf(),
    ensures
        m.request(s).wf(),
{
}

/// Inside the current state, `k` frame advances only move the frame index on.
pub proof fn lemma_advance_within(m: AnimationModel, k: nat)
    requires
        m.wf(),
        !m.paused,
        m.index + k < m.element().length,
    ensures
        m.after(k) == (AnimationModel { index: m.index + k, ..m }),
    decreases k,
{
    if k > 0 {
        lemma_advance_within(m, (k - 1) as nat);
    }
}

/// Once the remaining frames of the current state have been shown, the model
/// is the one that `finish` gives.
pub proof fn lemma_finish_after(m: AnimationModel)
    requires
        m.wf(),
        !m.paused,
    ensures
        m.after((m.element().length - m.index) as nat) == m.finish(),
{
    let k = (m.element().length - m.index - 1) as nat;
    lemma_advance_within(m, k);
    let last = AnimationModel { index: m.index + k, ..m };
    assert(m.after(k + 1) == last.advance());
    assert(last.finish() == m.finish());
}

/// Start offset: from frame `i` of a state, the next `k` advances that stay
/// in the state return the cells `start + i`, `start + i + 1`, and so on.
pub proof fn lemma_start_offset(m: AnimationModel, k: nat)
    requires
        m.wf(),
        !m.paused,
        m.index + k <= m.element().length,
    ensures
        m.frames(k).len() == k,
        forall|j: int| 0 <= j < k ==> #[trigger] m.frames(k)[j] == m.element().start + m.index + j,
    decreases k,
{
    if k > 0 {
        let a = m.advance();
        if k > 1 {
            assert(a == AnimationModel { index: m.index + 1, ..m });
            lemma_start_offset(a, (k - 1) as nat);
        } else {
            assert(a.frames(0) == Seq::<int>::empty());
        }
        assert forall|j: int| 0 <= j < k implies #[trigger] m.frames(k)[j] == m.element().start
            + m.index + j by {
            if j > 0 {
                assert(m.frames(k)[j] == a.frames((k - 1) as nat)[j - 1]);
            }
        }
    }
}

/// A state with nothing queued and no successor but itself cycles: the
/// advances return `start + (i + j) % length` for `j = 0, 1, ...`, where `i`
/// is the present frame.
pub proof fn lemma_cycle(m: AnimationModel, n: nat)
    requires
        m.wf(),
        !m.paused,
        m.next is None,
        m.graph.contains_key(m.current) ==> m.graph[m.current] == m.current,
    ensures
        m.frames(n).len() == n,
        forall|j: int|
            0 <= j < n ==> #[trigger] m.frames(n)[j] == m.element().start + (m.index + j) % (
            m.element().length as int),
    decreases n,
{
    if n > 0 {
        let len = m.element().length as int;
        let a = m.advance();
        if m.index + 1 < len {
            assert(a == AnimationModel { index: m.index + 1, ..m });
        } else {
            assert(a == AnimationModel { index: 0, ..m });
        }
        lemma_cycle(a, (n - 1) as nat);
        assert forall|j: int| 0 <= j < n implies #[trigger] m.frames(n)[j] == m.element().start + (
        m.index + j) % len by {
            if j == 0 {
                lemma_small_mod(m.index, len as nat);
            } else {
                assert(m.frames(n)[j] == a.frames((n - 1) as nat)[j - 1]);
                if m.index + 1 == len {
                    lemma_mod_add_multiples_vanish(j - 1, len);
                }
            }
        }
    }
}

/// Looping: a synthetic graph of `length` frames returns the cells
/// `0, 1, ..., length - 1` and then starts again at `0`.
pub proof fn lemma_looping(length: u32, n: nat)
    requires
        length >= 1,
    ensures
        AnimationModel::synthetic(length).frames(n).len() == n,
        forall|j: int|
            0 <= j < n ==> #[trigger] AnimationModel::synthetic(length).frames(n)[j] == j % (
            length as int),
{
    lemma_cycle(AnimationModel::synthetic(length), n);
}

/// Pausing: while paused, frame advances change nothing and keep returning
/// the same cell; resuming then continues from exactly that frame.
pub proof fn lemma_pause(m: AnimationModel, n: nat)
    ensures
        m.with_paused(true).after(n) == m.with_paused(true),
        m.with_paused(true).frames(n).len() == n,
        forall|j: int| 0 <= j < n ==> #[trigger] m.with_paused(true).frames(n)[j] == m.resolved(),
        m.with_paused(true).after(n).with_paused(m.paused) == m,
    decreases n,
{
    if n > 0 {
        lemma_pause(m, (n - 1) as nat);
        let p = m.with_paused(true);
        assert forall|j: int| 0 <= j < n implies #[trigger] p.frames(n)[j] == m.resolved() by {
            if j > 0 {
                assert(p.frames(n)[j] == p.frames((n - 1) as nat)[j - 1]);
            }
        }
    }
}

/// Preemption: a request for a state of higher priority makes it current at
/// frame zero and queues the interrupted state, which becomes current again
/// at frame zero once the new state's frames have run out.
pub proof fn lemma_preemption(m: AnimationModel, s: AnimState)
    requires
        m.wf(),
        !m.paused,
        s != m.current,
        m.data.contains_key(s),
        m.data[s].priority > m.element().priority,
    ensures
        m.request(s).current == s,
        m.request(s).index == 0,
        m.request(s).next == Some(m.current),
        m.request(s).after(m.data[s].length as nat).current == m.current,
        m.request(s).after(m.data[s].length as nat).index == 0,
        m.request(s).after(m.data[s].length as nat).next is None,
{
    lemma_request_wf(m, s);
    lemma_finish_after(m.request(s));
}

/// Deferral: a request for a state of lower priority leaves the current state
/// and frame alone and queues the request, which becomes current at frame
/// zero once the current state's frames have run out.
pub proof fn lemma_deferral(m: AnimationModel, s: AnimState)
    requires
        m.wf(),
        !m.paused,
        s != m.current,
        m.data.contains_key(s),
        m.data[s].priority < m.element().priority,
    ensures
        m.request(s).current == m.current,
        m.request(s).index == m.index,
        m.request(s).next == Some(s),
        m.request(s).after((m.element().length - m.index) as nat).current == s,
        m.request(s).after((m.element().length - m.index) as nat).index == 0,
        m.request(s).after((m.element().length - m.index) as nat).next is None,
{
    lemma_request_wf(m, s);
    lemma_finish_after(m.request(s));
}

/// Ignored requests: requesting the current state, or a state without data,
/// changes nothing.
pub proof fn lemma_ignored_requests(m: AnimationModel, s: AnimState)
    ensures
        m.request(m.current) == m,
        !m.data.contains_key(s) ==> m.request(s) == m,
{
}

/// Ties: a request for another state of equal priority makes it current at
/// frame zero and leaves the queue as it was.
pub proof fn lemma_tie(m: AnimationModel, s: AnimState)
    requires
        s != m.current,
        m.data.contains_key(s),
        m.data[s].priority == m.element().priority,
    ensures
        m.request(s).current == s,
        m.request(s).index == 0,
        m.request(s).next == m.next,
{
}

} // verus!
