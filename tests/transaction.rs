use kiosk_link::transaction::parse_transaction_output;

const SAMPLE: &str = "Tipo de mensaje: 0210\nCódigo de Respuesta: 00\nMensaje de Respuesta: APROBADA\nAutorizacion: 123456\nLote: 4521\nCódigo respuesta Aut: 00\nRed adquiriente: DATAFAST\nPublicidad: Gracias\nTID: T0001\nMID: M0002\nTrama: 02AF03\nModo lectura: CHIP\nPIN: OK\nGrupo tarjeta: VISA\n";

#[test]
fn parse_reads_all_fourteen_fields() {
    let t = parse_transaction_output(SAMPLE);
    assert_eq!(t.message_type, "0210");
    assert_eq!(t.response_code, "00");
    assert_eq!(t.response_message, "APROBADA");
    assert_eq!(t.authorization, "123456");
    assert_eq!(t.batch, "4521");
    assert_eq!(t.auth_response_code, "00");
    assert_eq!(t.acquirer_network, "DATAFAST");
    assert_eq!(t.advertising, "Gracias");
    assert_eq!(t.terminal_id, "T0001");
    assert_eq!(t.merchant_id, "M0002");
    assert_eq!(t.frame, "02AF03");
    assert_eq!(t.read_mode, "CHIP");
    assert_eq!(t.pin, "OK");
    assert_eq!(t.card_group, "VISA");
}

#[test]
fn parse_of_unlabelled_text_has_empty_fields() {
    let t = parse_transaction_output("nada que ver\n\u{0}\u{7f}");
    let fields = [
        &t.message_type, &t.response_code, &t.response_message, &t.authorization, &t.batch,
        &t.auth_response_code, &t.acquirer_network, &t.advertising, &t.terminal_id,
        &t.merchant_id, &t.frame, &t.read_mode, &t.pin, &t.card_group,
    ];
    for f in fields {
        assert_eq!(f.as_str(), "");
    }
}

#[test]
fn parse_of_partial_text() {
    let t = parse_transaction_output("Lote: 9\nTID: 3");
    assert_eq!(t.batch, "9");
    assert_eq!(t.terminal_id, "3");
    assert_eq!(t.merchant_id, "");
    assert_eq!(t.response_code, "");
}
