use arle::recurrent_state::{recurrent_layout, LayerRecurrentState, RecurrentLayout, RecurrentState};

fn layout() -> RecurrentLayout {
    recurrent_layout(32, 8, 32, 128, 128, 8192, 4)
}

fn small() -> RecurrentState<f32, u16> {
    RecurrentState::new(recurrent_layout(3, 1, 1, 2, 2, 3, 2), 0.0, 0)
}

#[test]
fn layout_sizes_follow_the_config() {
    assert_eq!(
        layout(),
        RecurrentLayout { num_linear_layers: 24, state_size: 32 * 128 * 128, conv_state_size: 8192 * 3 }
    );
    assert_eq!(recurrent_layout(4, 4, 1, 1, 1, 5, 1).num_linear_layers, 0);
    assert_eq!(recurrent_layout(4, 4, 1, 1, 1, 5, 1).conv_state_size, 0);
}

#[test]
fn new_state_is_zeroed() {
    let state = small();
    assert_eq!(state.seq_len, 0);
    assert!(state.snapshot.is_none());
    assert_eq!(
        state.layers,
        vec![LayerRecurrentState { state: vec![0.0; 4], conv_state: vec![0; 3] }; 2]
    );
}

#[test]
fn restore_without_snapshot_reports_false() {
    let mut state = small();
    state.seq_len = 7;
    state.layers[0].state[1] = 2.5;
    let before = state.clone();
    assert!(!state.restore_snapshot());
    assert_eq!(state, before);
}

#[test]
fn restore_rolls_back_buffers_and_token_count() {
    let mut state = small();
    state.seq_len = 12;
    state.layers[1].state[3] = 1.5;
    state.layers[0].conv_state[2] = 9;
    let saved_layers = state.layers.clone();
    state.save_snapshot();
    state.seq_len = 20;
    state.layers[1].state[3] = -4.0;
    state.layers[0].conv_state[0] = 5;
    assert!(state.restore_snapshot());
    assert_eq!(state.seq_len, 12);
    assert_eq!(state.layers, saved_layers);
    state.reset(0.0, 0);
    assert_eq!(state.seq_len, 0);
    assert_eq!(state.layers[1].state, vec![0.0; 4]);
    assert!(state.restore_snapshot());
    assert_eq!(state.seq_len, 12);
    assert_eq!(state.layers, saved_layers);
}

#[test]
fn restoring_twice_is_restoring_once() {
    let mut state = small();
    state.seq_len = 5;
    state.save_snapshot();
    state.seq_len = 9;
    state.layers[0].state[0] = 3.0;
    assert!(state.restore_snapshot());
    let once = state.clone();
    assert!(state.restore_snapshot());
    assert_eq!(state, once);
}
