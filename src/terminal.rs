//! Classification of what the payment-terminal process printed, and the response
//! that is reported to the kiosk's user interface.
use vstd::prelude::*;
use crate::text::{chars_of, contains, contains_seq, find, find_from, lemma_first_from_occurs, trim, trim_bounds, string_of_range};
use crate::transaction::{is_parse_of, parse_transaction_output, Transaction};
use crate::ticket::{fixed_digits, push_fixed_digits};

verus! {

/// The response code that an approved transaction reports.
pub const APPROVAL_CODE: &'static str = "Codigo de Respuesta: 00";

/// The phrase that an approved transaction reports.
pub const APPROVAL_PHRASE: &'static str = "APROBADA TRANS.";

/// The phrase that a cancelled transaction reports.
pub const CANCELLED_PHRASE: &'static str = "TRANS CANCELADA";

/// The marker of a failed transaction.
pub const ERROR_RESULT: &'static str = "RESULTADO: ERROR";

/// The label before the reason of a failed transaction.
pub const MESSAGE_LABEL: &'static str = "MENSAJE:";

/// The outcome of one payment attempt.
#[derive(Clone, Debug, PartialEq, Eq)]
pub enum PaymentOutcome {
    Success(Transaction),
    Cancelled(Transaction),
    Error(Option<String>),
}

/// Anything at all on the terminal's error stream counts as a failure.
pub open spec fn reports_error(stderr: Seq<char>) -> bool {
    stderr.len() > 0
}

/// The output reports an approval: both the approval code and the approval phrase.
pub open spec fn is_approved(out: Seq<char>) -> bool {
    contains(out, APPROVAL_CODE@) && contains(out, APPROVAL_PHRASE@)
}

/// The output reports a cancellation.
pub open spec fn is_cancelled(out: Seq<char>) -> bool {
    contains(out, CANCELLED_PHRASE@)
}

/// The output reports a failed transaction.
pub open spec fn is_failed(out: Seq<char>) -> bool {
    contains(out, ERROR_RESULT@)
}

/// The reason of a failure: all that follows the first message label, trimmed.
pub open spec fn failure_message(out: Seq<char>) -> Option<Seq<char>> {
    match find(out, MESSAGE_LABEL@) {
        None => None,
        Some(i) => Some(trim(out.subrange(i + MESSAGE_LABEL@.len(), out.len() as int))),
    }
}

/// `r` is an error outcome whose message is `m`.
pub open spec fn is_error_with(r: PaymentOutcome, m: Option<Seq<char>>) -> bool {
    match r {
        PaymentOutcome::Error(s) => match (s, m) {
            (None, None) => true,
            (Some(a), Some(b)) => a@ == b,
            _ => false,
        },
        _ => false,
    }
}

/// Classifies what the terminal process wrote to its output and error streams.
/// Anything on the error stream is a failure without message. Otherwise, in order:
/// approval code and phrase give a success, the cancellation phrase a cancellation,
/// the error marker a failure with the text after the message label, and anything
/// else a failure without message.
pub fn classify_payment(stdout: &str, stderr: &str) -> (r: PaymentOutcome)
    ensures
        reports_error(stderr@) ==> is_error_with(r, None),
        !reports_error(stderr@) && is_approved(stdout@) ==> (r matches PaymentOutcome::Success(
            tx,
        ) && is_parse_of(tx, stdout@)),
        !reports_error(stderr@) && !is_approved(stdout@) && is_cancelled(stdout@) ==> (
        r matches PaymentOutcome::Cancelled(tx) && is_parse_of(tx, stdout@)),
        !reports_error(stderr@) && !is_approved(stdout@) && !is_cancelled(stdout@) && is_failed(
            stdout@,
        ) ==> is_error_with(r, failure_message(stdout@)),
        !reports_error(stderr@) && !is_approved(stdout@) && !is_cancelled(stdout@) && !is_failed(
            stdout@,
        ) ==> is_error_with(r, None),
{
    if !stderr.is_empty() {
        return PaymentOutcome::Error(None);
    }
    let t = chars_of(stdout);
    let approved = contains_seq(&t, &chars_of(APPROVAL_CODE)) && contains_seq(
        &t,
        &chars_of(APPROVAL_PHRASE),
    );
    if approved {
        return PaymentOutcome::Success(parse_transaction_output(stdout));
    }
    if contains_seq(&t, &chars_of(CANCELLED_PHRASE)) {
        return PaymentOutcome::Cancelled(parse_transaction_output(stdout));
    }
    if !contains_seq(&t, &chars_of(ERROR_RESULT)) {
        return PaymentOutcome::Error(None);
    }
    let label = chars_of(MESSAGE_LABEL);
    proof {
        lemma_first_from_occurs(t@, label@, 0);
    }
    match find_from(&t, &label, 0) {
        None => PaymentOutcome::Error(None),
        Some(i) => {
            let tl = t.len();
            let (lo, hi) = trim_bounds(&t, i + label.len(), tl);
            PaymentOutcome::Error(Some(string_of_range(&t, lo, hi)))
        },
    }
}

/// The number of digits in the amount code that the terminal program takes.
pub const AMOUNT_CODE_WIDTH: u64 = 12;

/// The smallest amount that does not fit in the amount code.
pub const AMOUNT_CODE_LIMIT: u64 = 1_000_000_000_000;

/// The amount in cents as the terminal program takes it: twelve digits with
/// leading zeros (`100`, one unit, is `000000000100`). `None` where the amount
/// needs more than twelve digits.
pub fn amount_code(cents: u64) -> (r: Option<String>)
    ensures
        r is None <==> cents >= AMOUNT_CODE_LIMIT,
        r matches Some(c) ==> c@ == fixed_digits(cents as nat, AMOUNT_CODE_WIDTH as nat),
{
    if cents >= AMOUNT_CODE_LIMIT {
        return None;
    }
    let mut s = String::new();
    push_fixed_digits(&mut s, cents, AMOUNT_CODE_WIDTH);
    assert(s@ =~= Seq::<char>::empty() + fixed_digits(cents as nat, AMOUNT_CODE_WIDTH as nat));
    Some(s)
}

/// What the user interface is told once a payment attempt is over.
#[derive(Clone, Debug, PartialEq, Eq)]
pub enum PaymentEvent {
    Success(Transaction),
    Error(String),
}

/// The message reported for a failed attempt that gave no reason of its own.
pub const DEFAULT_FAILURE: &'static str = "Error durante el procesamiento del pago";

/// Turns an outcome into the event for the user interface: a success carries its
/// transaction; every other outcome is an error, with the outcome's message where
/// it has one and the default message otherwise.
pub fn payment_event(outcome: PaymentOutcome) -> (r: PaymentEvent)
    ensures
        outcome matches PaymentOutcome::Success(tx) ==> r == PaymentEvent::Success(tx),
        outcome matches PaymentOutcome::Error(Some(m)) ==> (r matches PaymentEvent::Error(s)
            && s@ == m@),
        (outcome is Cancelled || outcome matches PaymentOutcome::Error(None)) ==> (
        r matches PaymentEvent::Error(s) && s@ == DEFAULT_FAILURE@),
{
    match outcome {
        PaymentOutcome::Success(tx) => PaymentEvent::Success(tx),
        PaymentOutcome::Error(Some(m)) => PaymentEvent::Error(m),
        _ => PaymentEvent::Error(DEFAULT_FAILURE.to_owned()),
    }
}

} // verus!
