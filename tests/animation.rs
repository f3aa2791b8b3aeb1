use ferris_tears::state::STATE_COUNT;
use ferris_tears::table::StateTable;
use ferris_tears::{
    from_config, AnimElement, AnimOrientation, AnimState, Animation, AnimationConfig,
    ConfigError, TagPlayer,
};

fn elem(start: u32, length: u32, priority: i32) -> AnimElement {
    AnimElement { start, length, priority }
}

fn idle() -> AnimState {
    AnimState::Idle(AnimOrientation::Down)
}

fn attack() -> AnimState {
    AnimState::Attack(AnimOrientation::Down)
}

fn hit() -> AnimState {
    AnimState::Hit(AnimOrientation::Down)
}

fn walk() -> AnimState {
    AnimState::Move(AnimOrientation::Side)
}

fn load(
    graph: Vec<(AnimState, AnimState)>,
    data: Vec<(AnimState, AnimElement)>,
    current: AnimState,
) -> Animation {
    from_config(&AnimationConfig { graph, data, current }).expect("valid configuration")
}

/// Idle (priority 0, one frame, looping) and Attack (priority 1, three
/// frames from cell 10).
fn idle_and_attack() -> Animation {
    load(
        vec![(idle(), idle())],
        vec![(idle(), elem(0, 1, 0)), (attack(), elem(10, 3, 1))],
        idle(),
    )
}

#[test]
fn create_animation_from_length() {
    let mut animation = Animation::from_length(2);
    assert_eq!(0, animation.next_frame());
    assert_eq!(1, animation.next_frame());
    assert_eq!(0, animation.next_frame());
}

#[test]
fn from_length_loops_over_every_frame() {
    let mut animation = Animation::from_length(4);
    let frames: Vec<u32> = (0..9).map(|_| animation.next_frame()).collect();
    assert_eq!(frames, vec![0, 1, 2, 3, 0, 1, 2, 3, 0]);
    assert_eq!(animation.current_state(), idle());
    assert_eq!(animation.queued(), None);
}

#[test]
fn from_length_one_frame_repeats_cell_zero() {
    let mut animation = Animation::from_length(1);
    for _ in 0..5 {
        assert_eq!(animation.next_frame(), 0);
    }
}

#[test]
fn start_offset_is_added_and_cycles() {
    let mut animation = load(vec![(walk(), walk())], vec![(walk(), elem(5, 3, 0))], walk());
    assert_eq!(animation.index(), 5);
    let frames: Vec<u32> = (0..7).map(|_| animation.next_frame()).collect();
    assert_eq!(frames, vec![5, 6, 7, 5, 6, 7, 5]);
}

#[test]
fn largest_cells_fit() {
    let mut animation = load(vec![], vec![(walk(), elem(u32::MAX - 1, 2, 0))], walk());
    assert_eq!(animation.next_frame(), u32::MAX - 1);
    assert_eq!(animation.next_frame(), u32::MAX);
    assert_eq!(animation.next_frame(), u32::MAX - 1);
}

#[test]
fn paused_animation_repeats_the_same_cell() {
    let mut animation = Animation::from_length(3);
    assert_eq!(animation.next_frame(), 0);
    animation.set_paused(true);
    assert!(animation.is_paused());
    for _ in 0..6 {
        assert_eq!(animation.next_frame(), 1);
    }
    animation.set_paused(false);
    assert!(!animation.is_paused());
    assert_eq!(animation.next_frame(), 1);
    assert_eq!(animation.next_frame(), 2);
    assert_eq!(animation.next_frame(), 0);
}

#[test]
fn higher_priority_preempts_and_resumes() {
    let mut animation = idle_and_attack();
    animation.set_state(attack());
    assert_eq!(animation.current_state(), attack());
    assert_eq!(animation.queued(), Some(idle()));
    assert_eq!(animation.index(), 10);
    assert_eq!(animation.next_frame(), 10);
    assert_eq!(animation.next_frame(), 11);
    assert_eq!(animation.next_frame(), 12);
    assert_eq!(animation.current_state(), idle());
    assert_eq!(animation.queued(), None);
    assert_eq!(animation.next_frame(), 0);
}

#[test]
fn lower_priority_is_deferred() {
    let mut animation = load(
        vec![(attack(), walk())],
        vec![(attack(), elem(10, 3, 1)), (idle(), elem(0, 2, 0)), (walk(), elem(20, 2, 0))],
        attack(),
    );
    assert_eq!(animation.next_frame(), 10);
    animation.set_state(idle());
    assert_eq!(animation.current_state(), attack());
    assert_eq!(animation.queued(), Some(idle()));
    assert_eq!(animation.index(), 11);
    assert_eq!(animation.next_frame(), 11);
    assert_eq!(animation.next_frame(), 12);
    // The queued state comes before the graph's successor.
    assert_eq!(animation.current_state(), idle());
    assert_eq!(animation.queued(), None);
    assert_eq!(animation.next_frame(), 0);
}

#[test]
fn later_deferred_request_replaces_earlier_one() {
    let mut animation = load(
        vec![],
        vec![(attack(), elem(10, 2, 2)), (idle(), elem(0, 1, 0)), (walk(), elem(20, 1, 1))],
        attack(),
    );
    animation.set_state(idle());
    animation.set_state(walk());
    assert_eq!(animation.queued(), Some(walk()));
    animation.next_frame();
    animation.next_frame();
    assert_eq!(animation.current_state(), walk());
}

#[test]
fn requesting_current_state_changes_nothing() {
    let mut animation = idle_and_attack();
    animation.set_state(attack());
    animation.next_frame();
    animation.set_state(attack());
    assert_eq!(animation.current_state(), attack());
    assert_eq!(animation.queued(), Some(idle()));
    assert_eq!(animation.index(), 11);
}

#[test]
fn requesting_unknown_state_changes_nothing() {
    let mut animation = idle_and_attack();
    animation.set_state(hit());
    assert_eq!(animation.current_state(), idle());
    assert_eq!(animation.queued(), None);
    assert_eq!(animation.index(), 0);
}

#[test]
fn equal_priority_takes_over_without_queueing() {
    let mut animation = load(
        vec![(idle(), idle())],
        vec![(idle(), elem(0, 2, 0)), (walk(), elem(20, 2, 0))],
        idle(),
    );
    animation.next_frame();
    animation.set_state(walk());
    assert_eq!(animation.current_state(), walk());
    assert_eq!(animation.queued(), None);
    assert_eq!(animation.index(), 20);
    // Walk had no successor: entering it made it loop on itself.
    let frames: Vec<u32> = (0..5).map(|_| animation.next_frame()).collect();
    assert_eq!(frames, vec![20, 21, 20, 21, 20]);
}

#[test]
fn equal_priority_keeps_an_earlier_queue() {
    let mut animation = load(
        vec![],
        vec![(attack(), elem(10, 2, 1)), (hit(), elem(30, 1, 1)), (idle(), elem(0, 1, 0))],
        attack(),
    );
    animation.set_state(idle());
    animation.set_state(hit());
    assert_eq!(animation.current_state(), hit());
    assert_eq!(animation.queued(), Some(idle()));
    assert_eq!(animation.next_frame(), 30);
    assert_eq!(animation.current_state(), idle());
}

#[test]
fn state_without_successor_restarts_itself() {
    let mut animation = load(vec![], vec![(walk(), elem(4, 2, 0))], walk());
    let frames: Vec<u32> = (0..5).map(|_| animation.next_frame()).collect();
    assert_eq!(frames, vec![4, 5, 4, 5, 4]);
    assert_eq!(animation.current_state(), walk());
}

#[test]
fn graph_successor_follows_exhausted_state() {
    let mut animation = load(
        vec![(attack(), idle()), (idle(), idle())],
        vec![(attack(), elem(10, 2, 1)), (idle(), elem(0, 1, 0))],
        attack(),
    );
    assert_eq!(animation.next_frame(), 10);
    assert_eq!(animation.next_frame(), 11);
    assert_eq!(animation.current_state(), idle());
    assert_eq!(animation.next_frame(), 0);
}

#[test]
fn configuration_round_trip_resets_cursor() {
    let mut animation = idle_and_attack();
    animation.set_state(attack());
    animation.next_frame();
    animation.set_paused(true);
    let saved = animation.to_config();
    assert_eq!(saved.current, attack());
    let mut reloaded = from_config(&saved).expect("saved configuration loads");
    assert_eq!(reloaded.current_state(), attack());
    assert_eq!(reloaded.queued(), None);
    assert!(!reloaded.is_paused());
    assert_eq!(reloaded.index(), 10);
    let again = reloaded.to_config();
    assert_eq!(again.graph, saved.graph);
    assert_eq!(again.data, saved.data);
    assert_eq!(reloaded.next_frame(), 10);
}

#[test]
fn saved_pairs_list_each_state_once_in_order() {
    let animation = load(
        vec![(attack(), idle()), (idle(), idle())],
        vec![(attack(), elem(10, 2, 1)), (idle(), elem(0, 1, 0))],
        idle(),
    );
    let saved = animation.to_config();
    assert_eq!(saved.graph, vec![(idle(), idle()), (attack(), idle())]);
    assert_eq!(saved.data, vec![(idle(), elem(0, 1, 0)), (attack(), elem(10, 2, 1))]);
}

#[test]
fn later_pair_wins_for_a_repeated_key() {
    let mut animation = load(
        vec![],
        vec![(walk(), elem(0, 5, 0)), (walk(), elem(7, 1, 0))],
        walk(),
    );
    assert_eq!(animation.next_frame(), 7);
    assert_eq!(animation.next_frame(), 7);
}

#[test]
fn missing_current_is_rejected() {
    let config = AnimationConfig { graph: vec![], data: vec![(walk(), elem(0, 1, 0))], current: idle() };
    assert!(matches!(from_config(&config), Err(ConfigError::MissingCurrent(s)) if s == idle()));
}

#[test]
fn empty_config_is_rejected() {
    let config = AnimationConfig { graph: vec![], data: vec![], current: idle() };
    assert!(matches!(from_config(&config), Err(ConfigError::MissingCurrent(_))));
}

#[test]
fn zero_length_state_is_rejected() {
    let config = AnimationConfig {
        graph: vec![],
        data: vec![(idle(), elem(0, 1, 0)), (walk(), elem(0, 0, 0))],
        current: idle(),
    };
    assert!(matches!(from_config(&config), Err(ConfigError::Unplayable(s)) if s == walk()));
}

#[test]
fn overflowing_cells_are_rejected() {
    let config = AnimationConfig {
        graph: vec![],
        data: vec![(idle(), elem(u32::MAX, 2, 0))],
        current: idle(),
    };
    assert!(matches!(from_config(&config), Err(ConfigError::Unplayable(s)) if s == idle()));
}

#[test]
fn successor_without_data_is_rejected() {
    let config = AnimationConfig {
        graph: vec![(idle(), hit())],
        data: vec![(idle(), elem(0, 1, 0))],
        current: idle(),
    };
    assert!(matches!(from_config(&config), Err(ConfigError::UnknownSuccessor(s)) if s == idle()));
}

#[test]
fn default_animation_shows_cell_zero() {
    let mut animation = Animation::default();
    assert_eq!(animation.current_state(), idle());
    assert_eq!(animation.next_frame(), 0);
    assert_eq!(animation.next_frame(), 0);
}

#[test]
fn defaults_of_states_and_elements() {
    assert_eq!(AnimState::default(), AnimState::Idle(AnimOrientation::Down));
    assert_eq!(AnimOrientation::default(), AnimOrientation::Down);
    assert_eq!(AnimElement::default(), elem(0, 1, 0));
    assert_eq!(TagPlayer::default(), TagPlayer);
}

#[test]
fn element_playability() {
    assert!(elem(0, 1, 0).is_playable());
    assert!(elem(u32::MAX, 1, 0).is_playable());
    assert!(!elem(u32::MAX, 2, 0).is_playable());
    assert!(!elem(3, 0, 0).is_playable());
}

#[test]
fn state_codes_are_dense_and_invertible() {
    let mut seen = vec![false; STATE_COUNT];
    for c in 0..STATE_COUNT {
        let s = AnimState::from_code(c);
        assert_eq!(s.code(), c);
        assert!(!seen[c]);
        seen[c] = true;
    }
    assert_eq!(AnimState::Idle(AnimOrientation::Up).code(), 0);
    assert_eq!(AnimState::Die(AnimOrientation::Side).code(), 14);
    assert_eq!(AnimState::Attack(AnimOrientation::Side).orientation_of(), AnimOrientation::Side);
}

#[test]
fn table_insert_get_and_pairs() {
    let mut table: StateTable<u32> = StateTable::new();
    assert_eq!(table.get(walk()), None);
    table.insert(walk(), 3);
    table.insert(idle(), 1);
    table.insert(walk(), 4);
    assert!(table.contains(walk()));
    assert!(!table.contains(hit()));
    assert_eq!(table.get(walk()), Some(4));
    assert_eq!(table.to_pairs(), vec![(idle(), 1), (walk(), 4)]);
    let rebuilt = StateTable::from_pairs(&vec![(hit(), 9), (idle(), 2), (hit(), 8)]);
    assert_eq!(rebuilt.to_pairs(), vec![(idle(), 2), (hit(), 8)]);
}

#[test]
fn successor_entry_of_state_without_data_is_accepted() {
    let mut animation = load(
        vec![(hit(), attack()), (idle(), idle())],
        vec![(idle(), elem(2, 1, 0))],
        idle(),
    );
    assert_eq!(animation.next_frame(), 2);
    animation.set_state(hit());
    assert_eq!(animation.current_state(), idle());
    assert_eq!(animation.next_frame(), 2);
}
