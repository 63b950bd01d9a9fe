use keycore::action::{Action, HoldTapAction, Keymap};
use keycore::event::{CustomEvent, Event};
use keycore::grid::{COLS, ROWS};
use keycore::keycodes::{KC_A, KC_B, KC_C, KC_ESCAPE, KC_LCTRL, KC_NO, KC_RALT};
use keycore::layout::LayoutEngine;

fn filled_layer(a: fn() -> Action) -> Vec<Vec<Action>> {
    let mut rows = Vec::new();
    for _ in 0..ROWS {
        let mut row = Vec::new();
        for _ in 0..COLS {
            row.push(a());
        }
        rows.push(row);
    }
    rows
}

fn base_layer() -> Vec<Vec<Action>> {
    filled_layer(|| Action::KeyCode(KC_NO))
}

fn trans_layer() -> Vec<Vec<Action>> {
    filled_layer(|| Action::Trans)
}

fn lctl_esc() -> Action {
    Action::HoldTap(Box::new(HoldTapAction {
        timeout: 200,
        tap_hold_interval: 0,
        hold: Action::KeyCode(KC_LCTRL),
        tap: Action::KeyCode(KC_ESCAPE),
    }))
}

/// Base layer: A at (1,1), momentary layer 1 at (0,0), default-layer switch
/// at (0,1), custom key at (0,2), macro at (0,3), hold-tap at (2,0).
/// Layer 1: transparent but B at (1,1) and C at (1,2).
fn test_keymap() -> Keymap {
    let mut base = base_layer();
    base[1][1] = Action::KeyCode(KC_A);
    base[0][0] = Action::MomentaryLayer(1);
    base[0][1] = Action::DefaultLayer(1);
    base[0][2] = Action::Custom(7);
    base[0][3] = Action::MacroKeys(vec![KC_A, KC_B, KC_C]);
    base[2][0] = lctl_esc();
    let mut upper = trans_layer();
    upper[1][1] = Action::KeyCode(KC_B);
    upper[1][2] = Action::KeyCode(KC_C);
    let km = Keymap { layers: vec![base, upper] };
    assert!(km.check());
    km
}

#[test]
fn press_adds_code_release_removes() {
    let mut eng = LayoutEngine::new(test_keymap());
    assert_eq!(eng.handle(Event::Press(1, 1)), None);
    assert_eq!(eng.keycodes(), vec![KC_A]);
    assert_eq!(eng.handle(Event::Release(1, 1)), None);
    assert_eq!(eng.keycodes(), Vec::<u8>::new());
}

#[test]
fn keycodes_reads_are_idempotent() {
    let mut eng = LayoutEngine::new(test_keymap());
    eng.handle(Event::Press(1, 1));
    let first = eng.keycodes();
    let second = eng.keycodes();
    assert_eq!(first, second);
}

#[test]
fn momentary_layer_overrides_and_pops() {
    let mut eng = LayoutEngine::new(test_keymap());
    eng.handle(Event::Press(0, 0));
    assert_eq!(eng.current_layer(), 1);
    eng.handle(Event::Press(1, 1));
    assert_eq!(eng.keycodes(), vec![KC_B]);
    eng.handle(Event::Release(1, 1));
    eng.handle(Event::Release(0, 0));
    assert_eq!(eng.current_layer(), 0);
    eng.handle(Event::Press(1, 1));
    assert_eq!(eng.keycodes(), vec![KC_A]);
}

#[test]
fn transparent_cell_falls_through_to_base() {
    let mut eng = LayoutEngine::new(test_keymap());
    eng.handle(Event::Press(0, 0));
    // (2,2) is transparent on layer 1 and KC_NO on the base layer
    eng.handle(Event::Press(2, 2));
    assert_eq!(eng.keycodes(), vec![KC_NO]);
}

#[test]
fn default_layer_switch_is_sticky() {
    let mut eng = LayoutEngine::new(test_keymap());
    eng.handle(Event::Press(0, 1));
    eng.handle(Event::Release(0, 1));
    assert_eq!(eng.current_layer(), 1);
    eng.handle(Event::Press(1, 2));
    assert_eq!(eng.keycodes(), vec![KC_C]);
}

#[test]
fn holdtap_interrupting_press_resolves_tap() {
    let mut eng = LayoutEngine::new(test_keymap());
    eng.handle(Event::Press(2, 0));
    assert_eq!(eng.keycodes(), Vec::<u8>::new());
    eng.handle(Event::Press(1, 1));
    assert_eq!(eng.keycodes(), vec![KC_ESCAPE, KC_A]);
}

#[test]
fn holdtap_timeout_resolves_hold() {
    let mut eng = LayoutEngine::new(test_keymap());
    eng.handle(Event::Press(2, 0));
    for _ in 0..199 {
        assert_eq!(eng.tick(), None);
        assert_eq!(eng.keycodes(), Vec::<u8>::new());
    }
    assert_eq!(eng.tick(), None);
    assert_eq!(eng.keycodes(), vec![KC_LCTRL]);
    eng.handle(Event::Release(2, 0));
    assert_eq!(eng.keycodes(), Vec::<u8>::new());
}

#[test]
fn holdtap_released_early_taps_for_one_tick() {
    let mut eng = LayoutEngine::new(test_keymap());
    eng.handle(Event::Press(2, 0));
    eng.handle(Event::Release(2, 0));
    assert_eq!(eng.keycodes(), vec![KC_ESCAPE]);
    eng.tick();
    assert_eq!(eng.keycodes(), Vec::<u8>::new());
}

#[test]
fn tie_break_window_favours_hold() {
    // a hold-tap whose tie-break window is wide: a disambiguating press
    // arriving right after a key-up resolves to the hold branch
    let mut base = base_layer();
    base[1][1] = Action::KeyCode(KC_A);
    base[2][0] = Action::HoldTap(Box::new(HoldTapAction {
        timeout: 200,
        tap_hold_interval: 50,
        hold: Action::KeyCode(KC_LCTRL),
        tap: Action::KeyCode(KC_ESCAPE),
    }));
    let km = Keymap { layers: vec![base] };
    assert!(km.check());
    let mut eng = LayoutEngine::new(km);
    // a key-up, then the hold-tap, then another press well inside the window
    eng.handle(Event::Press(1, 1));
    eng.handle(Event::Release(1, 1));
    eng.tick();
    eng.handle(Event::Press(2, 0));
    eng.handle(Event::Press(1, 1));
    assert_eq!(eng.keycodes(), vec![KC_LCTRL, KC_A]);
}

#[test]
fn holdtap_tap_can_switch_default_layer() {
    // tapping a hold-tap whose tap branch replaces the default layer leaves
    // the switch sticky, as the release of a layer toggle would
    let mut base = base_layer();
    base[2][0] = Action::HoldTap(Box::new(HoldTapAction {
        timeout: 200,
        tap_hold_interval: 0,
        hold: Action::KeyCode(KC_RALT),
        tap: Action::DefaultLayer(1),
    }));
    let mut upper = trans_layer();
    upper[1][1] = Action::KeyCode(KC_B);
    let km = Keymap { layers: vec![base, upper] };
    assert!(km.check());
    let mut eng = LayoutEngine::new(km);
    eng.handle(Event::Press(2, 0));
    eng.handle(Event::Release(2, 0));
    eng.tick();
    assert_eq!(eng.current_layer(), 1);
    eng.handle(Event::Press(1, 1));
    assert_eq!(eng.keycodes(), vec![KC_B]);
}

#[test]
fn custom_key_triggers_on_release() {
    let mut eng = LayoutEngine::new(test_keymap());
    assert_eq!(eng.handle(Event::Press(0, 2)), Some(CustomEvent::Press(7)));
    assert_eq!(eng.keycodes(), Vec::<u8>::new());
    assert_eq!(eng.handle(Event::Release(0, 2)), Some(CustomEvent::Release(7)));
}

#[test]
fn macro_plays_one_code_per_tick() {
    let mut eng = LayoutEngine::new(test_keymap());
    eng.handle(Event::Press(0, 3));
    assert_eq!(eng.keycodes(), Vec::<u8>::new());
    eng.tick();
    assert_eq!(eng.keycodes(), vec![KC_A]);
    eng.tick();
    assert_eq!(eng.keycodes(), vec![KC_B]);
    eng.tick();
    assert_eq!(eng.keycodes(), vec![KC_C]);
    eng.tick();
    assert_eq!(eng.keycodes(), Vec::<u8>::new());
}

#[test]
fn duplicate_press_is_ignored() {
    let mut eng = LayoutEngine::new(test_keymap());
    eng.handle(Event::Press(1, 1));
    eng.handle(Event::Press(1, 1));
    assert_eq!(eng.keycodes(), vec![KC_A]);
    eng.handle(Event::Release(1, 1));
    assert_eq!(eng.keycodes(), Vec::<u8>::new());
}

#[test]
fn release_without_press_is_inert() {
    let mut eng = LayoutEngine::new(test_keymap());
    assert_eq!(eng.handle(Event::Release(3, 3)), None);
    assert_eq!(eng.keycodes(), Vec::<u8>::new());
}

#[test]
fn keymap_check_accepts_valid_table() {
    assert!(test_keymap().check());
}

#[test]
fn keymap_check_flags_empty_table() {
    let km = Keymap { layers: Vec::new() };
    assert!(!km.check());
}

#[test]
fn keymap_check_flags_transparent_base_cell() {
    let mut base = base_layer();
    base[3][3] = Action::Trans;
    let km = Keymap { layers: vec![base] };
    assert!(!km.check());
}

#[test]
fn keymap_check_flags_wrong_dimensions() {
    let mut base = base_layer();
    base[2].pop();
    let km = Keymap { layers: vec![base] };
    assert!(!km.check());
}

#[test]
fn keymap_check_flags_layer_out_of_range() {
    let mut base = base_layer();
    base[0][0] = Action::MomentaryLayer(3);
    let km = Keymap { layers: vec![base] };
    assert!(!km.check());
}

#[test]
fn keymap_check_flags_nested_holdtap() {
    let mut base = base_layer();
    base[0][0] = Action::HoldTap(Box::new(HoldTapAction {
        timeout: 200,
        tap_hold_interval: 0,
        hold: lctl_esc(),
        tap: Action::KeyCode(KC_A),
    }));
    let km = Keymap { layers: vec![base] };
    assert!(!km.check());
}
