use keycore::action::{Action, Keymap};
use keycore::event::CustomEvent;
use keycore::grid::{Grid, COLS, ROWS};
use keycore::keycodes::{KC_A, KC_NO};
use keycore::pipeline::Keyboard;

fn keymap_with_a_at_1_1() -> Keymap {
    let mut base = Vec::new();
    for _ in 0..ROWS {
        let mut row = Vec::new();
        for _ in 0..COLS {
            row.push(Action::KeyCode(KC_NO));
        }
        base.push(row);
    }
    base[1][1] = Action::KeyCode(KC_A);
    base[0][2] = Action::Custom(9);
    let km = Keymap { layers: vec![base] };
    assert!(km.check());
    km
}

#[test]
fn end_to_end_press_and_release() {
    let mut kb = Keyboard::new(keymap_with_a_at_1_1(), 5);
    let mut pressed = Grid::new_released();
    pressed.set(1, 1, true);
    // four noisy samples: nothing settles, the report stays empty
    for _ in 0..4 {
        let (rep, cev) = kb.scan_tick(&pressed);
        assert_eq!(cev, None);
        assert_eq!(rep.keys, Vec::<u8>::new());
        assert_eq!(rep.modifiers, 0);
    }
    // the fifth stable sample settles the press within the same tick
    let (rep, cev) = kb.scan_tick(&pressed);
    assert_eq!(cev, None);
    assert_eq!(rep.keys, vec![KC_A]);
    // release takes its own five stable samples
    let released = Grid::new_released();
    for _ in 0..4 {
        let (rep, _) = kb.scan_tick(&released);
        assert_eq!(rep.keys, vec![KC_A]);
    }
    let (rep, _) = kb.scan_tick(&released);
    assert_eq!(rep.keys, Vec::<u8>::new());
}

#[test]
fn custom_release_surfaces_from_scan_tick() {
    let mut kb = Keyboard::new(keymap_with_a_at_1_1(), 1);
    let mut pressed = Grid::new_released();
    pressed.set(0, 2, true);
    let (_, cev) = kb.scan_tick(&pressed);
    assert_eq!(cev, Some(CustomEvent::Press(9)));
    let released = Grid::new_released();
    let (_, cev) = kb.scan_tick(&released);
    assert_eq!(cev, Some(CustomEvent::Release(9)));
}

#[test]
fn keycodes_view_matches_report() {
    let mut kb = Keyboard::new(keymap_with_a_at_1_1(), 1);
    let mut pressed = Grid::new_released();
    pressed.set(1, 1, true);
    let (rep, _) = kb.scan_tick(&pressed);
    assert_eq!(kb.keycodes(), vec![KC_A]);
    assert_eq!(rep.keys, vec![KC_A]);
}
