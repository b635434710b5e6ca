use kiosk_link::text::{extract_value, trimmed};

#[test]
fn extract_value_reads_to_end_of_line() {
    assert_eq!(extract_value("Lote: 4521\nOtro: x", "Lote: "), "4521");
}

#[test]
fn extract_value_missing_label_is_empty() {
    assert_eq!(extract_value("Lote: 4521\nOtro: x", "TID: "), "");
    assert_eq!(extract_value("", "Lote: "), "");
    assert_eq!(extract_value("lote: 1", "Lote: "), "");
}

#[test]
fn extract_value_last_line_without_newline() {
    assert_eq!(extract_value("A: 1\nOtro:   x y  ", "Otro:"), "x y");
}

#[test]
fn extract_value_first_match_only() {
    assert_eq!(extract_value("K: uno\nK: dos\n", "K: "), "uno");
}

#[test]
fn extract_value_trims_value_and_carriage_return() {
    assert_eq!(extract_value("MID:  \t00042 \r\nX", "MID:"), "00042");
}

#[test]
fn extract_value_empty_value() {
    assert_eq!(extract_value("PIN: \nTID: 7", "PIN: "), "");
}

#[test]
fn extract_value_label_inside_longer_label() {
    assert_eq!(extract_value("TID: 11\nMID: 22", "ID: "), "11");
}

#[test]
fn trimmed_removes_unicode_white_space() {
    assert_eq!(trimmed("\u{a0}\u{3000} hola \u{2028}"), "hola");
    assert_eq!(trimmed("   "), "");
}
