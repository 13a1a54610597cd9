//! What the page's delegate reports to the main loop, and how its
//! notifications are turned into those reports.

use vstd::prelude::*;

verus! {

/// A notification from the web view about the page.
#[derive(Debug)]
pub enum DelegateEvent {
    UrlChanged(String),
    TitleChanged(String),
    HistoryChanged { url: String, can_go_back: bool, can_go_forward: bool },
    Closed,
}

/// The delegate for engine-wide notifications; errors are only logged.
#[derive(Clone, Copy, Debug)]
pub struct TerminalServoDelegate;

/// Where a page load stands.
#[derive(Clone, Copy, Debug, PartialEq, Eq, Structural)]
pub enum LoadStatus {
    Started,
    HeadParsed,
    Complete,
}

/// The title event for a page title; a page without one is titled
/// "Carboxyl".
pub fn title_changed(title: Option<String>) -> (e: DelegateEvent)
    ensures
        e is TitleChanged,
        title matches Some(s) ==> e->TitleChanged_0@ == s@,
        title is None ==> e->TitleChanged_0@ == "Carboxyl"@,
{
    match title {
        Some(t) => DelegateEvent::TitleChanged(t),
        None => {
            let t = "Carboxyl".to_owned();
            DelegateEvent::TitleChanged(t)
        },
    }
}

/// The history event for the engine's history `entries` with `current`
/// the index of the page shown: its URL, and whether there are entries
/// before and after it. No event when `current` is out of range.
pub fn history_changed(entries: &Vec<String>, current: usize) -> (e: Option<DelegateEvent>)
    ensures
        current >= entries@.len() ==> e is None,
        current < entries@.len() ==> (e matches Some(DelegateEvent::HistoryChanged { url, can_go_back, can_go_forward })
            && url@ == entries@[current as int]@ && can_go_back == (current > 0)
            && can_go_forward == (current + 1 < entries@.len())),
{
    if current >= entries.len() {
        return None;
    }
    let url = entries[current].clone();
    Some(DelegateEvent::HistoryChanged {
        url,
        can_go_back: current > 0,
        can_go_forward: current + 1 < entries.len(),
    })
}

/// What a load-status change asks for, with native text on: text
/// suppression once the head is parsed, text extraction once the load is
/// complete. `(suppress, extract)`.
pub fn load_status_actions(native_text: bool, status: LoadStatus) -> (r: (bool, bool))
    ensures
        r.0 == (native_text && status == LoadStatus::HeadParsed),
        r.1 == (native_text && status == LoadStatus::Complete),
{
    (native_text && status == LoadStatus::HeadParsed, native_text && status == LoadStatus::Complete)
}

/// How the evaluation of a script on the page ended.
#[derive(Clone, Copy, Debug, PartialEq, Eq, Structural)]
pub enum ScriptOutcome {
    Done,
    /// The page was not ready to run scripts yet.
    NotReady,
    Failed,
}

/// What text suppression makes of the outcome of its script: whether it is
/// a failure worth a warning. A page that is not ready yet is no failure.
pub fn suppress(outcome: ScriptOutcome) -> (report: bool)
    ensures
        report == (outcome == ScriptOutcome::Failed),
{
    match outcome {
        ScriptOutcome::Failed => true,
        _ => false,
    }
}

} // verus!
