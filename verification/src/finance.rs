//! The skills of the finance agent, and what its command line asks for.
use vstd::prelude::*;
use vstd::string::StringExecFns;

verus! {

/// Answers a message.
pub fn chat_message(text: &str) -> (r: Result<String, String>)
    ensures
        r matches Ok(s) && s@ == "Echo: "@ + text@,
{
    let mut s: String = "Echo: ".to_owned();
    s.append(text);
    Ok(s)
}

/// Reads an invoice: always refused, since nothing here can read one.
pub fn scan_invoice(path: &str) -> (r: Result<(), String>)
    ensures
        r matches Err(e) && e@ == "invoice OCR not yet implemented"@,
{
    Err("invoice OCR not yet implemented".to_owned())
}

/// Reconciles an account with a bank statement: always refused, since nothing here can.
pub fn reconcile_bank(entity_id: &str, statement_path: &str) -> (r: Result<String, String>)
    ensures
        r matches Err(e) && e@ == "bank reconciliation not yet implemented"@,
{
    Err("bank reconciliation not yet implemented".to_owned())
}

/// What the command line asks for.
#[derive(Debug, Clone, Copy, PartialEq, Eq, Structural)]
pub enum FinanceAction {
    /// Take in a transaction in words.
    Process,
    /// Print a report.
    Report,
    /// Talk.
    Repl,
    /// Serve requests.
    Serve,
    /// Only say that all is ready.
    Ready,
}

/// What the command line asks for: the first of what it names.
pub fn choose_action(input: bool, report: bool, interactive: bool, serve: bool) -> (r:
    FinanceAction)
    ensures
        r == if input {
            FinanceAction::Process
        } else if report {
            FinanceAction::Report
        } else if interactive {
            FinanceAction::Repl
        } else if serve {
            FinanceAction::Serve
        } else {
            FinanceAction::Ready
        },
{
    if input {
        FinanceAction::Process
    } else if report {
        FinanceAction::Report
    } else if interactive {
        FinanceAction::Repl
    } else if serve {
        FinanceAction::Serve
    } else {
        FinanceAction::Ready
    }
}

} // verus!
