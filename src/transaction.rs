//! The transaction record that the payment terminal prints, and its parser.
use vstd::prelude::*;
use crate::text::{extract, extract_value};

verus! {

/// The fields that the payment terminal reports for one transaction. A field whose
/// label is missing from the terminal's output is empty.
#[derive(Clone, Debug, PartialEq, Eq)]
pub struct Transaction {
    pub message_type: String,
    pub response_code: String,
    pub response_message: String,
    pub authorization: String,
    pub batch: String,
    pub auth_response_code: String,
    pub acquirer_network: String,
    pub advertising: String,
    pub terminal_id: String,
    pub merchant_id: String,
    pub frame: String,
    pub read_mode: String,
    pub pin: String,
    pub card_group: String,
}

/// `tx` holds, field by field, what `extract` finds after each label in `out`.
pub open spec fn is_parse_of(tx: Transaction, out: Seq<char>) -> bool {
    &&& tx.message_type@ == extract(out, "Tipo de mensaje: "@)
    &&& tx.response_code@ == extract(out, "Código de Respuesta: "@)
    &&& tx.response_message@ == extract(out, "Mensaje de Respuesta: "@)
    &&& tx.authorization@ == extract(out, "Autorizacion: "@)
    &&& tx.batch@ == extract(out, "Lote: "@)
    &&& tx.auth_response_code@ == extract(out, "Código respuesta Aut: "@)
    &&& tx.acquirer_network@ == extract(out, "Red adquiriente: "@)
    &&& tx.advertising@ == extract(out, "Publicidad: "@)
    &&& tx.terminal_id@ == extract(out, "TID: "@)
    &&& tx.merchant_id@ == extract(out, "MID: "@)
    &&& tx.frame@ == extract(out, "Trama: "@)
    &&& tx.read_mode@ == extract(out, "Modo lectura: "@)
    &&& tx.pin@ == extract(out, "PIN: "@)
    &&& tx.card_group@ == extract(out, "Grupo tarjeta: "@)
}

/// Builds the transaction record from the terminal's output, one labelled field at
/// a time. Never fails: a missing label gives an empty field.
pub fn parse_transaction_output(output: &str) -> (r: Transaction)
    ensures
        is_parse_of(r, output@),
{
    Transaction {
        message_type: extract_value(output, "Tipo de mensaje: "),
        response_code: extract_value(output, "Código de Respuesta: "),
        response_message: extract_value(output, "Mensaje de Respuesta: "),
        authorization: extract_value(output, "Autorizacion: "),
        batch: extract_value(output, "Lote: "),
        auth_response_code: extract_value(output, "Código respuesta Aut: "),
        acquirer_network: extract_value(output, "Red adquiriente: "),
        advertising: extract_value(output, "Publicidad: "),
        terminal_id: extract_value(output, "TID: "),
        merchant_id: extract_value(output, "MID: "),
        frame: extract_value(output, "Trama: "),
        read_mode: extract_value(output, "Modo lectura: "),
        pin: extract_value(output, "PIN: "),
        card_group: extract_value(output, "Grupo tarjeta: "),
    }
}

} // verus!
