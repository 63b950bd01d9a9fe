use keycore::keycodes::{KC_A, KC_B, KC_C, KC_D, KC_E, KC_F, KC_G, KC_H, KC_LCTRL, KC_LSHIFT};
use keycore::report::{report_eq, write_retry_needed, KbHidReport, ReportSender, WriteOutcome};

#[test]
fn report_splits_modifiers_from_keys() {
    let codes = vec![KC_LSHIFT, KC_A, KC_LCTRL];
    let rep = KbHidReport::from_keycodes(&codes);
    assert_eq!(rep.modifiers, 0b0000_0011);
    assert_eq!(rep.keys, vec![KC_A]);
}

#[test]
fn report_truncates_to_first_six_in_order() {
    let codes = vec![KC_A, KC_B, KC_C, KC_D, KC_E, KC_F, KC_G, KC_H];
    let rep = KbHidReport::from_keycodes(&codes);
    assert_eq!(rep.keys, vec![KC_A, KC_B, KC_C, KC_D, KC_E, KC_F]);
    assert_eq!(rep.modifiers, 0);
}

#[test]
fn modifiers_survive_truncation() {
    // the seventh code is a modifier: it still lands in the bitmask
    let codes = vec![KC_A, KC_B, KC_C, KC_D, KC_E, KC_F, KC_LSHIFT];
    let rep = KbHidReport::from_keycodes(&codes);
    assert_eq!(rep.keys.len(), 6);
    assert_eq!(rep.modifiers, 0b0000_0010);
}

#[test]
fn empty_set_gives_empty_report() {
    let rep = KbHidReport::from_keycodes(&Vec::new());
    assert_eq!(rep.modifiers, 0);
    assert_eq!(rep.keys, Vec::<u8>::new());
    assert_eq!(rep.as_bytes(), vec![0u8; 8]);
}

#[test]
fn wire_bytes_have_fixed_layout() {
    let codes = vec![KC_LSHIFT, KC_A, KC_B];
    let rep = KbHidReport::from_keycodes(&codes);
    let bytes = rep.as_bytes();
    assert_eq!(bytes, vec![0b0000_0010, 0, KC_A, KC_B, 0, 0, 0, 0]);
}

#[test]
fn report_eq_compares_content() {
    let a = KbHidReport::from_keycodes(&vec![KC_A, KC_LSHIFT]);
    let b = KbHidReport::from_keycodes(&vec![KC_LSHIFT, KC_A]);
    assert!(report_eq(&a, &b));
    let c = KbHidReport::from_keycodes(&vec![KC_B]);
    assert!(!report_eq(&a, &c));
}

#[test]
fn sender_reports_changes_only() {
    let mut s = ReportSender::new();
    let rep = KbHidReport::from_keycodes(&vec![KC_A]);
    assert!(s.set_report(rep));
    let again = KbHidReport::from_keycodes(&vec![KC_A]);
    assert!(!s.set_report(again));
    let other = KbHidReport::from_keycodes(&vec![KC_B]);
    assert!(s.set_report(other));
}

#[test]
fn zero_length_write_is_retried() {
    assert!(write_retry_needed(&WriteOutcome::Accepted(0)));
    assert!(!write_retry_needed(&WriteOutcome::Accepted(8)));
    assert!(!write_retry_needed(&WriteOutcome::Busy));
}
