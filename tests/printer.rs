use kiosk_link::printer::{PrinterError, SpoolJob, SpoolStep};

/// Runs a job against a spooler double that fails the given step once, and
/// returns the calls made and the job's result.
fn drive(fail: Option<SpoolStep>) -> (Vec<SpoolStep>, Result<(), PrinterError>) {
    let mut job = SpoolJob::new();
    let mut calls = Vec::new();
    while let Some(step) = job.next_step() {
        calls.push(step);
        job.record(Some(step) != fail);
        assert!(calls.len() <= 7);
    }
    (calls, job.outcome())
}

fn count(calls: &[SpoolStep], s: SpoolStep) -> usize {
    calls.iter().filter(|c| **c == s).count()
}

#[test]
fn all_steps_succeed_in_order() {
    let (calls, r) = drive(None);
    assert_eq!(calls, vec![SpoolStep::Open, SpoolStep::StartDocument, SpoolStep::StartPage, SpoolStep::Write, SpoolStep::EndPage, SpoolStep::EndDocument, SpoolStep::Close]);
    assert_eq!(r, Ok(()));
}

#[test]
fn failing_write_still_releases_everything() {
    let (calls, r) = drive(Some(SpoolStep::Write));
    assert_eq!(calls, vec![SpoolStep::Open, SpoolStep::StartDocument, SpoolStep::StartPage, SpoolStep::Write, SpoolStep::EndPage, SpoolStep::EndDocument, SpoolStep::Close]);
    assert_eq!(r, Err(PrinterError::Write));
    assert_eq!(count(&calls, SpoolStep::Open), count(&calls, SpoolStep::Close));
}

#[test]
fn failing_open_makes_no_other_call() {
    let (calls, r) = drive(Some(SpoolStep::Open));
    assert_eq!(calls, vec![SpoolStep::Open]);
    assert_eq!(r, Err(PrinterError::Open));
}

#[test]
fn failing_start_document_closes_the_printer() {
    let (calls, r) = drive(Some(SpoolStep::StartDocument));
    assert_eq!(calls, vec![SpoolStep::Open, SpoolStep::StartDocument, SpoolStep::Close]);
    assert_eq!(r, Err(PrinterError::StartDocument));
}

#[test]
fn failing_start_page_ends_document_and_closes() {
    let (calls, r) = drive(Some(SpoolStep::StartPage));
    assert_eq!(calls, vec![SpoolStep::Open, SpoolStep::StartDocument, SpoolStep::StartPage, SpoolStep::EndDocument, SpoolStep::Close]);
    assert_eq!(r, Err(PrinterError::StartPage));
}

#[test]
fn failing_end_page_is_reported_and_release_goes_on() {
    let (calls, r) = drive(Some(SpoolStep::EndPage));
    assert_eq!(calls, vec![SpoolStep::Open, SpoolStep::StartDocument, SpoolStep::StartPage, SpoolStep::Write, SpoolStep::EndPage, SpoolStep::EndDocument, SpoolStep::Close]);
    assert_eq!(r, Err(PrinterError::EndPage));
}

#[test]
fn failing_end_document_is_reported() {
    let (_, r) = drive(Some(SpoolStep::EndDocument));
    assert_eq!(r, Err(PrinterError::EndDocument));
}

#[test]
fn failing_close_is_not_reported() {
    let (calls, r) = drive(Some(SpoolStep::Close));
    assert_eq!(calls.len(), 7);
    assert_eq!(r, Ok(()));
}

#[test]
fn opens_equal_closes_for_every_single_failure() {
    for f in [None, Some(SpoolStep::Open), Some(SpoolStep::StartDocument), Some(SpoolStep::StartPage), Some(SpoolStep::Write), Some(SpoolStep::EndPage), Some(SpoolStep::EndDocument), Some(SpoolStep::Close)] {
        let (calls, _) = drive(f);
        let opened = if f == Some(SpoolStep::Open) { 0 } else { count(&calls, SpoolStep::Open) };
        assert_eq!(opened, count(&calls, SpoolStep::Close));
    }
}

#[test]
fn error_messages() {
    assert_eq!(PrinterError::Open.message(), "No se pudo abrir la impresora.");
    assert_eq!(PrinterError::Write.message(), "Error al escribir en la impresora.");
}
