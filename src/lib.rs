//! Animation state graph for sprites: a small state machine that advances a
//! frame cursor and settles competing requests to change animation by
//! priority, with a queue of one deferred state.

pub mod state;
pub mod table;
pub mod model;
pub mod animation_graph;
pub mod config;
pub mod components;

pub use animation_graph::Animation;
pub use components::TagPlayer;
pub use config::{AnimationConfig, ConfigError, from_config};
pub use model::{AnimElement, AnimationModel};
pub use state::{AnimOrientation, AnimState};
