//! The animation graph: a sprite's playback cursor over a graph of states.

use vstd::prelude::*;
use crate::model::{AnimElement, AnimationModel, lemma_advance_wf, lemma_request_wf};
use crate::state::AnimState;
use crate::table::StateTable;

verus! {

/// One animated sprite's state machine: the successor of each state, the
/// timing and priority of each state, and the playback cursor.
pub struct Animation {
    graph: StateTable<AnimState>,
    data: StateTable<AnimElement>,
    current: AnimState,
    next: Option<AnimState>,
    index: u32,
    paused: bool,
}

impl View for Animation {
    type V = AnimationModel;

    closed spec fn view(&self) -> AnimationModel {
        AnimationModel {
            graph: self.graph@,
            data: self.data@,
            current: self.current,
            next: self.next,
            index: self.index as nat,
            paused: self.paused,
        }
    }
}

impl Animation {
    closed spec fn tables_wf(&self) -> bool {
        self.graph.wf() && self.data.wf()
    }

    /// The representation is sound and the model is well formed.
    pub closed spec fn wf(&self) -> bool {
        self.tables_wf() && self@.wf()
    }

    /// A well-formed graph has a well-formed model.
    pub proof fn lemma_wf_view(&self)
        requires
            self.wf(),
        ensures
            self@.wf(),
    {
    }

    pub(crate) fn from_parts(
        graph: StateTable<AnimState>,
        data: StateTable<AnimElement>,
        current: AnimState,
    ) -> (r: Animation)
        requires
            graph.wf(),
            data.wf(),
            (AnimationModel {
                graph: graph@,
                data: data@,
                current,
                next: None,
                index: 0,
                paused: false,
            }).wf(),
        ensures
            r.wf(),
            r@ == (AnimationModel {
                graph: graph@,
                data: data@,
                current,
                next: None,
                index: 0,
                paused: false,
            }),
    {
        Animation { graph, data, current, next: None, index: 0, paused: false }
    }

    /// The successor map, as key/value pairs in state order.
    pub(crate) fn graph_pairs(&self) -> (r: Vec<(AnimState, AnimState)>)
        requires
            self.wf(),
        ensures
            crate::table::map_of_pairs(r@) == self@.graph,
    {
        self.graph.to_pairs()
    }

    /// The data map, as key/value pairs in state order.
    pub(crate) fn data_pairs(&self) -> (r: Vec<(AnimState, AnimElement)>)
        requires
            self.wf(),
        ensures
            crate::table::map_of_pairs(r@) == self@.data,
    {
        self.data.to_pairs()
    }

    fn current(&self) -> (r: AnimElement)
        requires
            self.tables_wf(),
            self@.data.contains_key(self@.current),
        ensures
            r == self@.element(),
    {
        self.data.get(self.current).unwrap()
    }

    fn next_state(&mut self)
        requires
            old(self).tables_wf(),
        ensures
            final(self).tables_wf(),
            final(self)@ == old(self)@.finish(),
    {
        if let Some(state) = self.next {
            self.reset(state);
            self.next = None;
        } else if let Some(state) = self.graph.get(self.current) {
            self.reset(state);
        } else {
            self.index = 0;
        }
    }

    fn is_valid_state(&self, state: AnimState) -> (r: bool)
        requires
            self.tables_wf(),
        ensures
            r == self@.data.contains_key(state),
    {
        self.data.contains(state)
    }

    fn get_priority(&self, state: AnimState) -> (r: i32)
        requires
            self.tables_wf(),
            self@.data.contains_key(state),
        ensures
            r == self@.data[state].priority,
    {
        self.data.get(state).unwrap().priority
    }

    /// The sprite-sheet cell of the current frame: the frame index plus the
    /// current state's first cell.
    pub fn index(&self) -> (r: u32)
        requires
            self.wf(),
        ensures
            r == self@.resolved(),
    {
        self.index + self.current().start
    }

    fn reset(&mut self, state: AnimState)
        requires
            old(self).tables_wf(),
        ensures
            final(self).tables_wf(),
            final(self)@ == old(self)@.enter(state),
    {
        self.index = 0;
        self.current = state;
        if !self.graph.contains(state) {
            self.graph.insert(state, state);
        }
    }

    /// Returns the cell of the current frame, then, unless paused, moves to
    /// the next frame; when the current state's frames run out the queued
    /// state, else the state's successor, else the state itself starts over.
    pub fn next_frame(&mut self) -> (r: u32)
        requires
            old(self).wf(),
        ensures
            final(self).wf(),
            r == old(self)@.resolved(),
            final(self)@ == old(self)@.advance(),
    {
        let index = self.index();
        if !self.paused {
            self.index += 1;
            if self.index == self.current().length {
                self.next_state();
            }
        }
        proof {
            lemma_advance_wf(old(self)@);
        }
        index
    }

    /// Requests the state `state`. Nothing changes if it is the current state
    /// or has no data. A higher priority than the current state's takes over
    /// at once and queues the interrupted state; an equal priority takes over
    /// and queues nothing; a lower priority is queued to follow the current
    /// state, replacing any earlier queued state.
    pub fn set_state(&mut self, state: AnimState)
        requires
            old(self).wf(),
        ensures
            final(self).wf(),
            final(self)@ == old(self)@.request(state),
    {
        if state != self.current && self.is_valid_state(state) {
            let state_priority = self.get_priority(state);
            let current_priority = self.get_priority(self.current);
            if state_priority >= current_priority {
                if state_priority > current_priority {
                    self.next = Some(self.current);
                }
                self.reset(state);
            } else {
                self.next = Some(state);
            }
        }
        proof {
            lemma_request_wf(old(self)@, state);
        }
    }

    /// An animation of one state, the default one, looping on itself over
    /// `length` frames that start at cell zero.
    pub fn from_length(length: u32) -> (r: Self)
        requires
            length >= 1,
        ensures
            r.wf(),
            r@ == AnimationModel::synthetic(length),
    {
        let mut data = StateTable::new();
        data.insert(AnimState::default(), AnimElement { length, ..AnimElement::default() });
        let r = Self { data, ..Self::default() };
        assert(r@.data =~= AnimationModel::synthetic(length).data);
        assert(r@.graph =~= AnimationModel::synthetic(length).graph);
        r
    }

    /// The state playing now.
    pub fn current_state(&self) -> (r: AnimState)
        ensures
            r == self@.current,
    {
        self.current
    }

    /// The state queued to follow the current one, if any.
    pub fn queued(&self) -> (r: Option<AnimState>)
        ensures
            r == self@.next,
    {
        self.next
    }

    pub fn is_paused(&self) -> (r: bool)
        ensures
            r == self@.paused,
    {
        self.paused
    }

    /// Pauses or resumes playback; nothing else changes.
    pub fn set_paused(&mut self, paused: bool)
        requires
            old(self).wf(),
        ensures
            final(self).wf(),
            final(self)@ == old(self)@.with_paused(paused),
    {
        self.paused = paused;
    }
}

impl Default for Animation {
    fn default() -> (r: Animation)
        ensures
            r.wf(),
            r@ == AnimationModel::default_model(),
    {
        let mut graph = StateTable::new();
        graph.insert(AnimState::default(), AnimState::default());
        let mut data = StateTable::new();
        data.insert(AnimState::default(), AnimElement::default());
        let r = Self {
            graph,
            data,
            current: AnimState::default(),
            next: None,
            index: 0,
            paused: false,
        };
        assert(r@.data =~= AnimationModel::default_model().data);
        assert(r@.graph =~= AnimationModel::default_model().graph);
        r
    }
}

} // verus!
