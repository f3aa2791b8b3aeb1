//! The stored description of an animation graph: its successor map, its data
//! map and its initial state. The playback cursor is never stored.

use vstd::prelude::*;
use crate::animation_graph::Animation;
use crate::model::{AnimElement, AnimationModel};
use crate::state::{AnimState, STATE_COUNT, lemma_code_inverse};
use crate::table::{StateTable, map_of_pairs};

verus! {

/// A graph as a configuration holds it. Maps are lists of pairs; where a key
/// repeats, the later pair counts.
pub struct AnimationConfig {
    pub graph: Vec<(AnimState, AnimState)>,
    pub data: Vec<(AnimState, AnimElement)>,
    pub current: AnimState,
}

/// Abstract value of a configuration.
pub struct ConfigModel {
    pub graph: Map<AnimState, AnimState>,
    pub data: Map<AnimState, AnimElement>,
    pub current: AnimState,
}

impl View for AnimationConfig {
    type V = ConfigModel;

    open spec fn view(&self) -> ConfigModel {
        ConfigModel {
            graph: map_of_pairs(self.graph@),
            data: map_of_pairs(self.data@),
            current: self.current,
        }
    }
}

impl ConfigModel {
    /// The graph that loading yields: the stored maps and state, and a fresh
    /// cursor.
    pub open spec fn loaded(self) -> AnimationModel {
        AnimationModel {
            graph: self.graph,
            data: self.data,
            current: self.current,
            next: None,
            index: 0,
            paused: false,
        }
    }

    /// The description can be played.
    pub open spec fn valid(self) -> bool {
        self.loaded().wf()
    }
}

impl AnimationModel {
    /// What a configuration records of a graph.
    pub open spec fn saved(self) -> ConfigModel {
        ConfigModel { graph: self.graph, data: self.data, current: self.current }
    }
}

/// Why a configuration cannot be played.
#[derive(Debug, Eq, PartialEq, Structural, Clone, Copy)]
pub enum ConfigError {
    /// The initial state has no data.
    MissingCurrent(AnimState),
    /// The state's data has no frame, or its cells do not fit in `u32`.
    Unplayable(AnimState),
    /// The state has data but its successor has none.
    UnknownSuccessor(AnimState),
}

impl AnimationConfig {
    /// Every state with data is playable.
    pub open spec fn all_playable(self) -> bool {
        forall|s: AnimState| #[trigger]
            self@.data.contains_key(s) ==> self@.data[s].playable()
    }
}

/// Builds the graph that `config` describes, with a fresh cursor. The checks
/// run in order: the initial state must have data, then every state's data
/// must be playable, then the successor of every state with data must have
/// data.
pub fn from_config(config: &AnimationConfig) -> (r: Result<Animation, ConfigError>)
    ensures
        r is Ok <==> config@.valid(),
        match r {
            Ok(a) => a.wf() && a@ == config@.loaded(),
            Err(ConfigError::MissingCurrent(s)) => {
                &&& s == config.current
                &&& !config@.data.contains_key(s)
            },
            Err(ConfigError::Unplayable(s)) => {
                &&& config@.data.contains_key(config.current)
                &&& config@.data.contains_key(s)
                &&& !config@.data[s].playable()
            },
            Err(ConfigError::UnknownSuccessor(s)) => {
                &&& config@.data.contains_key(config.current)
                &&& config.all_playable()
                &&& config@.graph.contains_key(s)
                &&& config@.data.contains_key(s)
                &&& !config@.data.contains_key(config@.graph[s])
            },
        },
{
    let graph = StateTable::from_pairs(&config.graph);
    let data = StateTable::from_pairs(&config.data);
    if !data.contains(config.current) {
        return Err(ConfigError::MissingCurrent(config.current));
    }
    let mut i: usize = 0;
    while i < STATE_COUNT
        invariant
            i <= STATE_COUNT,
            data.wf(),
            data@ == config@.data,
            data@.contains_key(config.current),
            forall|s: AnimState|
                #![trigger data@.contains_key(s)]
                s.spec_code() < i && data@.contains_key(s) ==> data@[s].playable(),
        decreases STATE_COUNT - i,
    {
        let s = AnimState::from_code(i);
        if let Some(e) = data.get(s) {
            if !e.is_playable() {
                return Err(ConfigError::Unplayable(s));
            }
        }
        proof {
            assert forall|t: AnimState|
                t.spec_code() < i + 1 && #[trigger] data@.contains_key(t) implies data@[t].playable() by {
                crate::state::lemma_code_injective(s, t);
            }
        }
        i = i + 1;
    }
    proof {
        assert forall|t: AnimState| #[trigger] data@.contains_key(t) implies data@[t].playable() by {
            lemma_code_inverse(t);
        }
    }
    let mut j: usize = 0;
    while j < STATE_COUNT
        invariant
            j <= STATE_COUNT,
            graph.wf(),
            data.wf(),
            graph@ == config@.graph,
            data@ == config@.data,
            data@.contains_key(config.current),
            config.all_playable(),
            forall|s: AnimState|
                #![trigger graph@.contains_key(s)]
                s.spec_code() < j && graph@.contains_key(s) && data@.contains_key(s)
                    ==> data@.contains_key(graph@[s]),
        decreases STATE_COUNT - j,
    {
        let s = AnimState::from_code(j);
        if let Some(t) = graph.get(s) {
            if data.contains(s) && !data.contains(t) {
                assert(config@.loaded().graph.contains_key(s) && config@.loaded().data.contains_key(s));
                assert(!config@.loaded().data.contains_key(config@.loaded().graph[s]));
                return Err(ConfigError::UnknownSuccessor(s));
            }
        }
        proof {
            assert forall|t: AnimState|
                t.spec_code() < j + 1 && #[trigger] graph@.contains_key(t) && data@.contains_key(t)
                    implies data@.contains_key(graph@[t]) by {
                crate::state::lemma_code_injective(s, t);
            }
        }
        j = j + 1;
    }
    proof {
        assert forall|t: AnimState| #[trigger]
            graph@.contains_key(t) && data@.contains_key(t) implies data@.contains_key(
            graph@[t],
        ) by {
            lemma_code_inverse(t);
        }
    }
    Ok(Animation::from_parts(graph, data, config.current))
}

impl Animation {
    /// The successor map, the data map and the current state of the graph.
    pub fn to_config(&self) -> (r: AnimationConfig)
        requires
            self.wf(),
        ensures
            r@ == self@.saved(),
    {
        AnimationConfig {
            graph: self.graph_pairs(),
            data: self.data_pairs(),
            current: self.current_state(),
        }
    }
}

/// Saving a well-formed graph and loading the result succeeds, and gives back
/// the same successor map, data map and current state, with the cursor reset:
/// frame zero, nothing queued, not paused.
pub proof fn lemma_config_round_trip(m: AnimationModel)
    requires
        m.wf(),
    ensures
        m.saved().valid(),
        m.saved().loaded() == (AnimationModel { next: None, index: 0, paused: false, ..m }),
{
}

} // verus!
