use vstd::prelude::*;
use vstd::string::StringExecFns;
use crate::app::ProcessAction;
use crate::text::{contains_text, decimal, decimal_chars, push_char};

verus! {

/// How sending a directive to a process went, as the provider reports it.
#[derive(Clone, Copy, Debug, PartialEq, Eq, Structural)]
pub enum DirectiveResult {
    /// The process took the directive.
    Done,
    /// The process exists but the directive was rejected.
    Failed,
    /// The platform cannot send this directive.
    Unsupported,
    /// No process has the identifier any more.
    NoSuchProcess,
}

/// Whether `action` may be sent at all: termination always, pausing and
/// resuming only where the platform supports them.
pub open spec fn directive_allowed(action: ProcessAction, supports_pause_resume: bool) -> bool {
    action == ProcessAction::Kill || supports_pause_resume
}

/// The error given for a pause or resume the platform cannot send.
pub open spec fn unsupported_text() -> Seq<char> {
    "Suspend and resume are not supported on this platform"@
}

pub open spec fn done_suffix(action: ProcessAction) -> Seq<char> {
    match action {
        ProcessAction::Kill => " killed"@,
        ProcessAction::Suspend => " suspended"@,
        ProcessAction::Resume => " resumed"@,
    }
}

pub open spec fn failed_suffix(action: ProcessAction) -> Seq<char> {
    match action {
        ProcessAction::Kill => " could not be killed"@,
        ProcessAction::Suspend => " could not be suspended"@,
        ProcessAction::Resume => " could not be resumed"@,
    }
}

/// "Process <pid>" followed by `suffix`.
pub open spec fn about_process(pid: u32, suffix: Seq<char>) -> Seq<char> {
    "Process "@ + decimal(pid as nat) + suffix
}

/// The outcome of `action` on process `pid`: an error without a directive
/// where the platform cannot send it, else the provider's `result` put into
/// words.
pub open spec fn outcome_spec(
    pid: u32,
    action: ProcessAction,
    supports_pause_resume: bool,
    result: DirectiveResult,
) -> Result<Seq<char>, Seq<char>> {
    if !directive_allowed(action, supports_pause_resume) {
        Err(unsupported_text())
    } else {
        match result {
            DirectiveResult::Done => Ok(about_process(pid, done_suffix(action))),
            DirectiveResult::Failed => Err(about_process(pid, failed_suffix(action))),
            DirectiveResult::NoSuchProcess => Err(about_process(pid, " no longer exists"@)),
            DirectiveResult::Unsupported => Err(unsupported_text()),
        }
    }
}

/// Whether `action` may be sent where pause/resume support is as given.
pub fn may_send(action: ProcessAction, supports_pause_resume: bool) -> (r: bool)
    ensures
        r == directive_allowed(action, supports_pause_resume),
{
    match action {
        ProcessAction::Kill => true,
        _ => supports_pause_resume,
    }
}

/// "Process <pid>" followed by `suffix`.
fn describe(pid: u32, suffix: &str) -> (r: String)
    ensures
        r@ == about_process(pid, suffix@),
{
    let mut text = String::from_str("Process ");
    let digits = decimal_chars(pid);
    let ghost start = text@;
    let mut i: usize = 0;
    while i < digits.len()
        invariant
            i <= digits@.len(),
            start == "Process "@,
            digits@ == decimal(pid as nat),
            text@ == start + digits@.subrange(0, i as int),
        decreases digits@.len() - i,
    {
        push_char(&mut text, digits[i]);
        i = i + 1;
        proof {
            assert(text@ =~= start + digits@.subrange(0, i as int));
        }
    }
    proof {
        assert(digits@.subrange(0, digits@.len() as int) =~= digits@);
    }
    text.concat(suffix)
}

/// The outcome of sending `action` to process `pid`, as a toast text: `Ok`
/// on success, `Err` on failure.
pub fn directive_outcome(
    pid: u32,
    action: ProcessAction,
    supports_pause_resume: bool,
    result: DirectiveResult,
) -> (r: Result<String, String>)
    ensures
        match r {
            Ok(m) => outcome_spec(pid, action, supports_pause_resume, result) == Ok::<
                Seq<char>,
                Seq<char>,
            >(m@),
            Err(m) => outcome_spec(pid, action, supports_pause_resume, result) == Err::<
                Seq<char>,
                Seq<char>,
            >(m@),
        },
        r is Ok ==> contains_text(r->Ok_0@, decimal(pid as nat)),
{
    if !may_send(action, supports_pause_resume) {
        return Err(String::from_str("Suspend and resume are not supported on this platform"));
    }
    match result {
        DirectiveResult::Done => {
            let suffix = match action {
                ProcessAction::Kill => " killed",
                ProcessAction::Suspend => " suspended",
                ProcessAction::Resume => " resumed",
            };
            let m = describe(pid, suffix);
            proof {
                let p = "Process "@;
                let d = decimal(pid as nat);
                assert(m@.subrange(p.len() as int, (p.len() + d.len()) as int) =~= d);
            }
            Ok(m)
        },
        DirectiveResult::Failed => {
            let suffix = match action {
                ProcessAction::Kill => " could not be killed",
                ProcessAction::Suspend => " could not be suspended",
                ProcessAction::Resume => " could not be resumed",
            };
            Err(describe(pid, suffix))
        },
        DirectiveResult::NoSuchProcess => Err(describe(pid, " no longer exists")),
        DirectiveResult::Unsupported => Err(
            String::from_str("Suspend and resume are not supported on this platform"),
        ),
    }
}

} // verus!
