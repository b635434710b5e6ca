use kiosk_link::terminal::{amount_code, classify_payment, payment_event, PaymentEvent, PaymentOutcome};
use kiosk_link::transaction::parse_transaction_output;

const APPROVED: &str = "Codigo de Respuesta: 00\nAPROBADA TRANS.\nLote: 77\nAutorizacion: 654321\nGrupo tarjeta: MASTERCARD\n";

#[test]
fn approved_output_is_success_with_parsed_fields() {
    let r = classify_payment(APPROVED, "");
    assert_eq!(r, PaymentOutcome::Success(parse_transaction_output(APPROVED)));
    match r {
        PaymentOutcome::Success(t) => {
            assert_eq!(t.batch, "77");
            assert_eq!(t.authorization, "654321");
            assert_eq!(t.card_group, "MASTERCARD");
        }
        _ => panic!("expected a success"),
    }
}

#[test]
fn approval_code_alone_is_not_success() {
    let r = classify_payment("Codigo de Respuesta: 00\n", "");
    assert_eq!(r, PaymentOutcome::Error(None));
}

#[test]
fn cancellation_phrase_is_cancelled() {
    let out = "TRANS CANCELADA\nLote: 5\n";
    let r = classify_payment(out, "");
    assert_eq!(r, PaymentOutcome::Cancelled(parse_transaction_output(out)));
}

#[test]
fn error_marker_with_message() {
    let r = classify_payment("RESULTADO: ERROR\nMENSAJE: tarjeta invalida\n", "");
    assert_eq!(r, PaymentOutcome::Error(Some("tarjeta invalida".to_string())));
}

#[test]
fn error_marker_without_message() {
    let r = classify_payment("RESULTADO: ERROR\n", "");
    assert_eq!(r, PaymentOutcome::Error(None));
}

#[test]
fn unrecognised_output_is_error_without_message() {
    assert_eq!(classify_payment("hola\n", ""), PaymentOutcome::Error(None));
    assert_eq!(classify_payment("", ""), PaymentOutcome::Error(None));
}

#[test]
fn error_stream_wins_over_approval() {
    assert_eq!(classify_payment(APPROVED, "fallo\n"), PaymentOutcome::Error(None));
}

#[test]
fn blank_error_stream_is_an_error() {
    assert_eq!(classify_payment("TRANS CANCELADA", " \n\t"), PaymentOutcome::Error(None));
    assert_eq!(classify_payment("Codigo de Respuesta: 00 APROBADA TRANS.", " "), PaymentOutcome::Error(None));
}

#[test]
fn empty_error_stream_lets_output_decide() {
    assert!(matches!(classify_payment("TRANS CANCELADA", ""), PaymentOutcome::Cancelled(_)));
}

#[test]
fn approval_takes_priority_over_cancellation() {
    let out = "TRANS CANCELADA\nCodigo de Respuesta: 00\nAPROBADA TRANS.\n";
    assert!(matches!(classify_payment(out, ""), PaymentOutcome::Success(_)));
}

#[test]
fn event_of_success_keeps_transaction() {
    let t = parse_transaction_output(APPROVED);
    assert_eq!(payment_event(PaymentOutcome::Success(t.clone())), PaymentEvent::Success(t));
}

#[test]
fn event_of_error_keeps_message() {
    let e = payment_event(PaymentOutcome::Error(Some("tarjeta invalida".to_string())));
    assert_eq!(e, PaymentEvent::Error("tarjeta invalida".to_string()));
}

#[test]
fn event_of_cancel_or_bare_error_uses_default_message() {
    let d = "Error durante el procesamiento del pago".to_string();
    let c = payment_event(PaymentOutcome::Cancelled(parse_transaction_output("")));
    assert_eq!(c, PaymentEvent::Error(d.clone()));
    assert_eq!(payment_event(PaymentOutcome::Error(None)), PaymentEvent::Error(d));
}

#[test]
fn amount_code_is_twelve_digits() {
    assert_eq!(amount_code(100), Some("000000000100".to_string()));
    assert_eq!(amount_code(0), Some("000000000000".to_string()));
    assert_eq!(amount_code(999_999_999_999), Some("999999999999".to_string()));
    assert_eq!(amount_code(1_000_000_000_000), None);
    assert_eq!(amount_code(u64::MAX), None);
}
