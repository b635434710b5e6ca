//! The order of the print-spooler calls for one receipt. Every resource that was
//! acquired is released, on every path, in the reverse order of acquisition.
use vstd::prelude::*;

verus! {

/// One call to the print spooler.
#[derive(Clone, Copy, Debug, PartialEq, Eq, Structural)]
pub enum SpoolStep {
    Open,
    StartDocument,
    StartPage,
    Write,
    EndPage,
    EndDocument,
    Close,
}

/// The spooler call that failed first.
#[derive(Clone, Copy, Debug, PartialEq, Eq, Structural)]
pub enum PrinterError {
    Open,
    StartDocument,
    StartPage,
    Write,
    EndPage,
    EndDocument,
}

/// The message for people that goes with each failure.
pub open spec fn error_message(e: PrinterError) -> Seq<char> {
    match e {
        PrinterError::Open => "No se pudo abrir la impresora."@,
        PrinterError::StartDocument => "No se pudo iniciar el documento."@,
        PrinterError::StartPage => "No se pudo iniciar la página."@,
        PrinterError::Write => "Error al escribir en la impresora."@,
        PrinterError::EndPage => "No se pudo terminar la página."@,
        PrinterError::EndDocument => "No se pudo terminar el documento."@,
    }
}

impl PrinterError {
    /// A message for people.
    pub fn message(&self) -> (r: String)
        ensures
            r@ == error_message(*self),
    {
        let m = match self {
            PrinterError::Open => "No se pudo abrir la impresora.",
            PrinterError::StartDocument => "No se pudo iniciar el documento.",
            PrinterError::StartPage => "No se pudo iniciar la página.",
            PrinterError::Write => "Error al escribir en la impresora.",
            PrinterError::EndPage => "No se pudo terminar la página.",
            PrinterError::EndDocument => "No se pudo terminar el documento.",
        };
        m.to_owned()
    }
}

/// The state of one print job: how many resources are held (the printer handle,
/// the document, the page, in that order), whether the data was written, and the
/// first failure.
pub struct SpoolState {
    pub held: nat,
    pub written: bool,
    pub error: Option<PrinterError>,
}

/// A job that has made no call yet.
pub open spec fn initial_state() -> SpoolState {
    SpoolState { held: 0, written: false, error: None }
}

/// At most the handle, the document and the page are held.
pub open spec fn spool_wf(s: SpoolState) -> bool {
    s.held <= 3
}

/// Still acquiring resources or writing: nothing has failed and nothing was written.
pub open spec fn going_forward(s: SpoolState) -> bool {
    s.error is None && !s.written
}

/// The call that acquires the next resource when `held` are held.
pub open spec fn acquire_step(held: nat) -> SpoolStep {
    if held == 0 {
        SpoolStep::Open
    } else if held == 1 {
        SpoolStep::StartDocument
    } else {
        SpoolStep::StartPage
    }
}

/// The call that releases the last of `held` resources.
pub open spec fn release_step(held: nat) -> SpoolStep {
    if held == 3 {
        SpoolStep::EndPage
    } else if held == 2 {
        SpoolStep::EndDocument
    } else {
        SpoolStep::Close
    }
}

/// The failure of the call that acquires the next resource when `held` are held.
pub open spec fn acquire_error(held: nat) -> PrinterError {
    if held == 0 {
        PrinterError::Open
    } else if held == 1 {
        PrinterError::StartDocument
    } else {
        PrinterError::StartPage
    }
}

/// The failure of the call that releases the last of `held` resources (the
/// page or the document).
pub open spec fn release_error(held: nat) -> PrinterError {
    if held == 3 {
        PrinterError::EndPage
    } else {
        PrinterError::EndDocument
    }
}

/// The next call to make, or `None` once the job is over.
pub open spec fn next_step_of(s: SpoolState) -> Option<SpoolStep> {
    if going_forward(s) && s.held < 3 {
        Some(acquire_step(s.held))
    } else if going_forward(s) {
        Some(SpoolStep::Write)
    } else if s.held > 0 {
        Some(release_step(s.held))
    } else {
        None
    }
}

/// The state after the next call returned `ok`. A failed acquisition or write
/// turns the job to releasing what is held; a failed release is recorded (unless an
/// earlier failure was) and the releasing goes on; a failed close is not reported.
pub open spec fn after(s: SpoolState, ok: bool) -> SpoolState {
    if going_forward(s) && s.held < 3 {
        if ok {
            SpoolState { held: s.held + 1, ..s }
        } else {
            SpoolState { error: Some(acquire_error(s.held)), ..s }
        }
    } else if going_forward(s) {
        SpoolState { written: true, error: if ok { None } else { Some(PrinterError::Write) }, ..s }
    } else if s.held > 0 {
        SpoolState {
            held: (s.held - 1) as nat,
            error: if !ok && s.error is None && s.held >= 2 {
                Some(release_error(s.held))
            } else {
                s.error
            },
            ..s
        }
    } else {
        s
    }
}

/// How many calls are left at most.
pub open spec fn steps_left(s: SpoolState) -> nat {
    if going_forward(s) {
        (7 - s.held) as nat
    } else {
        s.held
    }
}

/// Runs the job from `s`, the calls returning `outs` in turn: the final state and
/// the calls made, each with what it returned.
pub open spec fn run(s: SpoolState, outs: Seq<bool>) -> (SpoolState, Seq<(SpoolStep, bool)>)
    decreases outs.len(),
{
    if outs.len() == 0 || next_step_of(s) is None {
        (s, Seq::empty())
    } else {
        let rest = run(after(s, outs[0]), outs.drop_first());
        (rest.0, seq![(next_step_of(s)->0, outs[0])] + rest.1)
    }
}

/// The number of successful opens in a trace.
pub open spec fn opens(tr: Seq<(SpoolStep, bool)>) -> nat
    decreases tr.len(),
{
    if tr.len() == 0 {
        0
    } else {
        (if tr[0] == (SpoolStep::Open, true) {
            1nat
        } else {
            0nat
        }) + opens(tr.drop_first())
    }
}

/// The number of closes in a trace.
pub open spec fn closes(tr: Seq<(SpoolStep, bool)>) -> nat
    decreases tr.len(),
{
    if tr.len() == 0 {
        0
    } else {
        (if tr[0].0 == SpoolStep::Close {
            1nat
        } else {
            0nat
        }) + closes(tr.drop_first())
    }
}

/// 1 while the printer handle is open, else 0.
pub open spec fn handle_held(s: SpoolState) -> nat {
    if s.held >= 1 {
        1
    } else {
        0
    }
}

/// Each call keeps the count of open printer handles, and a run with enough
/// results ends with nothing held.
pub proof fn lemma_run(s: SpoolState, outs: Seq<bool>)
    requires
        spool_wf(s),
    ensures
        spool_wf(run(s, outs).0),
        opens(run(s, outs).1) + handle_held(s) == closes(run(s, outs).1) + handle_held(
            run(s, outs).0,
        ),
        outs.len() >= steps_left(s) ==> next_step_of(run(s, outs).0) is None && run(s, outs).0.held
            == 0,
    decreases outs.len(),
{
    if outs.len() == 0 || next_step_of(s) is None {
    } else {
        let n = after(s, outs[0]);
        lemma_run(n, outs.drop_first());
        let rest = run(n, outs.drop_first());
        let tr = seq![(next_step_of(s)->0, outs[0])] + rest.1;
        assert(tr.drop_first() =~= rest.1);
        assert(tr[0] == (next_step_of(s)->0, outs[0]));
    }
}

/// Whatever the spooler calls return, a job run to its end (seven results are
/// always enough) closes the printer exactly as often as it opened it, and ends
/// with nothing held.
pub proof fn lemma_released_on_every_path(outs: Seq<bool>)
    requires
        outs.len() >= 7,
    ensures
        next_step_of(run(initial_state(), outs).0) is None,
        run(initial_state(), outs).0.held == 0,
        opens(run(initial_state(), outs).1) == closes(run(initial_state(), outs).1),
{
    lemma_run(initial_state(), outs);
}

/// The failure that a call reports when it returns `false`; a failed close is not
/// reported.
pub open spec fn step_error(st: SpoolStep) -> Option<PrinterError> {
    match st {
        SpoolStep::Open => Some(PrinterError::Open),
        SpoolStep::StartDocument => Some(PrinterError::StartDocument),
        SpoolStep::StartPage => Some(PrinterError::StartPage),
        SpoolStep::Write => Some(PrinterError::Write),
        SpoolStep::EndPage => Some(PrinterError::EndPage),
        SpoolStep::EndDocument => Some(PrinterError::EndDocument),
        SpoolStep::Close => None,
    }
}

/// The failure of the first call in a trace that failed and reports failures.
pub open spec fn first_failure(tr: Seq<(SpoolStep, bool)>) -> Option<PrinterError>
    decreases tr.len(),
{
    if tr.len() == 0 {
        None
    } else if !tr[0].1 && step_error(tr[0].0) is Some {
        step_error(tr[0].0)
    } else {
        first_failure(tr.drop_first())
    }
}

/// A run keeps a failure already recorded, and otherwise records the first one.
pub proof fn lemma_run_error(s: SpoolState, outs: Seq<bool>)
    requires
        spool_wf(s),
    ensures
        run(s, outs).0.error == if s.error is Some {
            s.error
        } else {
            first_failure(run(s, outs).1)
        },
    decreases outs.len(),
{
    if outs.len() == 0 || next_step_of(s) is None {
    } else {
        let n = after(s, outs[0]);
        lemma_run_error(n, outs.drop_first());
        let rest = run(n, outs.drop_first());
        let tr = seq![(next_step_of(s)->0, outs[0])] + rest.1;
        assert(tr.drop_first() =~= rest.1);
        assert(tr[0] == (next_step_of(s)->0, outs[0]));
    }
}

/// Whatever the spooler calls return, the job's result names the first call that
/// failed (a failed close aside), and is success when none did.
pub proof fn lemma_first_failure_reported(outs: Seq<bool>)
    ensures
        run(initial_state(), outs).0.error == first_failure(run(initial_state(), outs).1),
{
    lemma_run_error(initial_state(), outs);
}

/// A print job: tells which spooler call to make next and takes its result.
pub struct SpoolJob {
    held: u8,
    written: bool,
    error: Option<PrinterError>,
}

impl View for SpoolJob {
    type V = SpoolState;

    closed spec fn view(&self) -> SpoolState {
        SpoolState { held: self.held as nat, written: self.written, error: self.error }
    }
}

impl SpoolJob {
    /// A job that has made no call yet.
    pub fn new() -> (r: SpoolJob)
        ensures
            r@ == initial_state(),
    {
        SpoolJob { held: 0, written: false, error: None }
    }

    /// The next call to make, or `None` once the job is over.
    pub fn next_step(&self) -> (r: Option<SpoolStep>)
        requires
            spool_wf(self@),
        ensures
            r == next_step_of(self@),
    {
        let forward = self.error.is_none() && !self.written;
        if forward && self.held < 3 {
            Some(
                if self.held == 0 {
                    SpoolStep::Open
                } else if self.held == 1 {
                    SpoolStep::StartDocument
                } else {
                    SpoolStep::StartPage
                },
            )
        } else if forward {
            Some(SpoolStep::Write)
        } else if self.held > 0 {
            Some(
                if self.held == 3 {
                    SpoolStep::EndPage
                } else if self.held == 2 {
                    SpoolStep::EndDocument
                } else {
                    SpoolStep::Close
                },
            )
        } else {
            None
        }
    }

    /// Takes the result of the call that `next_step` named.
    pub fn record(&mut self, ok: bool)
        requires
            spool_wf(old(self)@),
        ensures
            final(self)@ == after(old(self)@, ok),
            spool_wf(final(self)@),
    {
        let forward = self.error.is_none() && !self.written;
        if forward && self.held < 3 {
            if ok {
                self.held = self.held + 1;
            } else {
                self.error = Some(
                    if self.held == 0 {
                        PrinterError::Open
                    } else if self.held == 1 {
                        PrinterError::StartDocument
                    } else {
                        PrinterError::StartPage
                    },
                );
            }
        } else if forward {
            self.written = true;
            if !ok {
                self.error = Some(PrinterError::Write);
            }
        } else if self.held > 0 {
            if !ok && self.error.is_none() && self.held >= 2 {
                self.error = Some(
                    if self.held == 3 {
                        PrinterError::EndPage
                    } else {
                        PrinterError::EndDocument
                    },
                );
            }
            self.held = self.held - 1;
        }
    }

    /// The result of the job: the first failure, if any.
    pub fn outcome(&self) -> (r: Result<(), PrinterError>)
        ensures
            r matches Err(e) ==> self@.error == Some(e),
            r is Ok ==> self@.error is None,
    {
        match self.error {
            Some(e) => Err(e),
            None => Ok(()),
        }
    }
}

} // verus!
