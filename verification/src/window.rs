//! The life of a form window, as decisions: what the window does when a new
//! form arrives, when it is asked to close, and when the form ends. The
//! window itself (drawing, channels, the port file) performs the actions.
use vstd::prelude::*;
use crate::form::FormResult;
use crate::protocol::OutputStatus;

verus! {

/// The state of a form window.
#[derive(Debug, Clone, Copy, PartialEq, Eq, Structural)]
pub struct WindowState {
    /// Whether the window belongs to a session daemon (else it shows one form).
    pub session: bool,
    /// The request that waits for the answer to the form on show, if any.
    pub pending: Option<u64>,
    /// Whether a session window shows "waiting" after a submitted form.
    pub waiting: bool,
    /// Whether the window is closing; it then does nothing more.
    pub closing: bool,
}

/// What happens to a form window.
#[derive(Debug, Clone, Copy, PartialEq, Eq, Structural)]
pub enum WindowEvent {
    /// A new form arrived with request `ticket`, which waits for its answer.
    FormArrived { ticket: u64 },
    /// The window was asked to close.
    CloseRequested,
    /// The form on show ended.
    Finished { result: FormResult },
}

/// What a form window does.
#[derive(Debug, Clone, Copy, PartialEq, Eq, Structural)]
pub enum WindowAction {
    /// Answer request `ticket` with `status`, and with the form's values
    /// where `with_values` holds (else with none).
    Reply { ticket: u64, status: OutputStatus, with_values: bool },
    /// Show the newly arrived form, from its initial state, with its timer
    /// started afresh and its title on the window.
    LoadForm,
    /// Keep the result of a one-form window: `status` and the form's values.
    StoreResult { status: OutputStatus },
    /// Remove the file that records the session's port.
    RemovePortFile,
    /// Close the window.
    CloseWindow,
}

/// The status that reports a form's result.
pub open spec fn status_of(r: FormResult) -> OutputStatus {
    match r {
        FormResult::Submitted => OutputStatus::Submitted,
        FormResult::Cancelled => OutputStatus::Cancelled,
        FormResult::Timeout => OutputStatus::Timeout,
    }
}

/// The state of a new window: a one-form window, or a session window that
/// shows the form of request `first` (a session starts with its first form).
pub open spec fn initial_state(first: Option<u64>) -> WindowState {
    WindowState { session: first is Some, pending: first, waiting: false, closing: false }
}

/// The reply that cancels the pending request, if there is one.
pub open spec fn cancel_pending(s: WindowState) -> Seq<WindowAction> {
    match s.pending {
        Some(t) => seq![WindowAction::Reply { ticket: t, status: OutputStatus::Cancelled, with_values: false }],
        None => seq![],
    }
}

/// The next state of a window and what it does, for one event. A closing
/// window does nothing. A new form replaces the one on show (whose request,
/// if still pending, is answered `cancelled`). A request to close answers
/// the pending request `cancelled`, removes the port file and closes. An
/// ended form (ignored while a session window waits) answers the pending
/// request with its result and values; in a session a submitted form then
/// waits for the next form, and any other result removes the port file and
/// closes; a one-form window keeps its result and closes.
pub open spec fn step_spec(s: WindowState, e: WindowEvent) -> (WindowState, Seq<WindowAction>) {
    if s.closing {
        (s, seq![])
    } else {
        match e {
            WindowEvent::FormArrived { ticket } => (
                WindowState { pending: Some(ticket), waiting: false, ..s },
                cancel_pending(s).push(WindowAction::LoadForm),
            ),
            WindowEvent::CloseRequested => (
                WindowState { pending: None, closing: true, ..s },
                cancel_pending(s) + seq![WindowAction::RemovePortFile, WindowAction::CloseWindow],
            ),
            WindowEvent::Finished { result } => {
                if s.waiting {
                    (s, seq![])
                } else if s.session {
                    let reply = match s.pending {
                        Some(t) => seq![WindowAction::Reply { ticket: t, status: status_of(result), with_values: true }],
                        None => seq![],
                    };
                    if result == FormResult::Submitted {
                        (WindowState { pending: None, waiting: true, ..s }, reply)
                    } else {
                        (
                            WindowState { pending: None, closing: true, ..s },
                            reply + seq![WindowAction::RemovePortFile, WindowAction::CloseWindow],
                        )
                    }
                } else {
                    (
                        WindowState { closing: true, ..s },
                        seq![WindowAction::StoreResult { status: status_of(result) }, WindowAction::CloseWindow],
                    )
                }
            },
        }
    }
}

/// The state of a new window: a one-form window (`first` is `None`), or a
/// session window showing the form of request `first`.
pub fn initial_window(first: Option<u64>) -> (r: WindowState)
    ensures
        r == initial_state(first),
{
    WindowState { session: first.is_some(), pending: first, waiting: false, closing: false }
}

/// The status that reports a form's result.
pub fn result_status(r: FormResult) -> (s: OutputStatus)
    ensures
        s == status_of(r),
{
    match r {
        FormResult::Submitted => OutputStatus::Submitted,
        FormResult::Cancelled => OutputStatus::Cancelled,
        FormResult::Timeout => OutputStatus::Timeout,
    }
}

/// Appends the reply that cancels the pending request, if there is one.
fn push_cancel_pending(acts: &mut Vec<WindowAction>, s: WindowState)
    ensures
        final(acts)@ == old(acts)@ + cancel_pending(s),
{
    if let Some(t) = s.pending {
        acts.push(WindowAction::Reply { ticket: t, status: OutputStatus::Cancelled, with_values: false });
    }
    assert(acts@ =~= old(acts)@ + cancel_pending(s));
}

/// The next state of a window and what it does, in order, for one event.
pub fn step(s: WindowState, e: WindowEvent) -> (r: (WindowState, Vec<WindowAction>))
    ensures
        (r.0, r.1@) == step_spec(s, e),
{
    let mut acts: Vec<WindowAction> = Vec::new();
    if s.closing {
        assert(acts@ =~= Seq::<WindowAction>::empty());
        return (s, acts);
    }
    match e {
        WindowEvent::FormArrived { ticket } => {
            push_cancel_pending(&mut acts, s);
            acts.push(WindowAction::LoadForm);
            assert(acts@ =~= cancel_pending(s).push(WindowAction::LoadForm));
            (WindowState { pending: Some(ticket), waiting: false, ..s }, acts)
        },
        WindowEvent::CloseRequested => {
            push_cancel_pending(&mut acts, s);
            acts.push(WindowAction::RemovePortFile);
            acts.push(WindowAction::CloseWindow);
            assert(acts@ =~= cancel_pending(s) + seq![WindowAction::RemovePortFile, WindowAction::CloseWindow]);
            (WindowState { pending: None, closing: true, ..s }, acts)
        },
        WindowEvent::Finished { result } => {
            let status = result_status(result);
            if s.waiting {
                assert(acts@ =~= Seq::<WindowAction>::empty());
                (s, acts)
            } else if s.session {
                if let Some(t) = s.pending {
                    acts.push(WindowAction::Reply { ticket: t, status, with_values: true });
                }
                if result == FormResult::Submitted {
                    (WindowState { pending: None, waiting: true, ..s }, acts)
                } else {
                    acts.push(WindowAction::RemovePortFile);
                    acts.push(WindowAction::CloseWindow);
                    (WindowState { pending: None, closing: true, ..s }, acts)
                }
            } else {
                acts.push(WindowAction::StoreResult { status });
                acts.push(WindowAction::CloseWindow);
                (WindowState { closing: true, ..s }, acts)
            }
        },
    }
}

/// The result that ends the form on show at this frame, if any: none while
/// a session window waits or the window closes; otherwise a timeout once
/// `elapsed_secs` reaches the form's `timeout`, else what the user did.
pub open spec fn frame_result_spec(
    s: WindowState,
    timeout: Option<u64>,
    elapsed_secs: u64,
    chosen: Option<FormResult>,
) -> Option<FormResult> {
    if s.waiting || s.closing {
        None
    } else if timeout is Some && elapsed_secs >= timeout->0 {
        Some(FormResult::Timeout)
    } else {
        chosen
    }
}

/// The result that ends the form on show at this frame, if any.
pub fn frame_result(s: WindowState, timeout: Option<u64>, elapsed_secs: u64, chosen: Option<FormResult>) -> (r: Option<FormResult>)
    ensures
        r == frame_result_spec(s, timeout, elapsed_secs, chosen),
{
    if s.waiting || s.closing {
        None
    } else {
        match timeout {
            Some(t) => if elapsed_secs >= t { Some(FormResult::Timeout) } else { chosen },
            None => chosen,
        }
    }
}

/// Whether `acts` answers request `t`.
pub open spec fn replies_to(acts: Seq<WindowAction>, t: u64) -> bool {
    exists|i: int| 0 <= i < acts.len() && (#[trigger] acts[i]) is Reply && acts[i]->ticket == t
}

/// No request is left without an answer: whenever the request that waits
/// for the form's answer stops waiting, the window answers it in that step.
pub proof fn lemma_pending_is_answered(s: WindowState, e: WindowEvent)
    ensures
        s.pending is Some && step_spec(s, e).0.pending != s.pending ==> replies_to(step_spec(s, e).1, s.pending->0),
{
    if s.pending is Some && step_spec(s, e).0.pending != s.pending {
        let acts = step_spec(s, e).1;
        assert(acts[0] is Reply && acts[0]->ticket == s.pending->0);
    }
}

/// A window answers only the request that waits, and only when it stops
/// waiting; so no request is answered twice (each new form comes with a new
/// request).
pub proof fn lemma_answers_only_pending(s: WindowState, e: WindowEvent, i: int)
    requires
        e is FormArrived ==> s.pending != Some(e->ticket),
        0 <= i < step_spec(s, e).1.len(),
        step_spec(s, e).1[i] is Reply,
    ensures
        s.pending == Some(step_spec(s, e).1[i]->ticket),
        step_spec(s, e).0.pending != s.pending,
{
}

/// A closing window stays as it is and does nothing, whatever happens.
pub proof fn lemma_closing_is_final(s: WindowState, e: WindowEvent)
    requires
        s.closing,
    ensures
        step_spec(s, e) == (s, Seq::<WindowAction>::empty()),
{
}

/// In a session, a submitted form keeps the window open, waiting for the
/// next form; a cancelled or timed-out form closes it and removes the port
/// file. A one-form window closes with any result.
pub proof fn lemma_result_outcomes(s: WindowState, result: FormResult)
    requires
        !s.closing,
        !s.waiting,
    ensures
        ({
            let (s2, acts) = step_spec(s, WindowEvent::Finished { result });
            &&& s.session && result == FormResult::Submitted ==> s2.waiting && !s2.closing
            &&& s.session && result != FormResult::Submitted ==> s2.closing && acts.contains(WindowAction::RemovePortFile)
            &&& !s.session ==> s2.closing && acts.contains(WindowAction::StoreResult { status: status_of(result) })
            &&& s2.closing ==> acts.last() == WindowAction::CloseWindow
        }),
{
    let (s2, acts) = step_spec(s, WindowEvent::Finished { result });
    if s.session && result != FormResult::Submitted {
        assert(acts[acts.len() - 2] == WindowAction::RemovePortFile);
    }
    if !s.session {
        assert(acts[0] == WindowAction::StoreResult { status: status_of(result) });
    }
}

/// The name of a form's result, as people say it.
pub open spec fn result_name(r: FormResult) -> Seq<char> {
    match r {
        FormResult::Submitted => "submitted"@,
        FormResult::Cancelled => "cancelled"@,
        FormResult::Timeout => "timeout"@,
    }
}

/// The name of a reported status, as it is written in a form's output.
pub open spec fn status_name(s: OutputStatus) -> Seq<char> {
    match s {
        OutputStatus::Submitted => "submitted"@,
        OutputStatus::Cancelled => "cancelled"@,
        OutputStatus::Timeout => "timeout"@,
    }
}

/// A form's result is reported by the status of the same name: a submitted
/// form as `submitted`, a cancelled one as `cancelled`, a timed-out one as
/// `timeout` (never as `cancelled`); so is the answer to the request that
/// waited for it, in a session, and the result a one-form window keeps.
pub proof fn lemma_result_reported_by_name(s: WindowState, result: FormResult)
    requires
        !s.closing,
        !s.waiting,
    ensures
        status_name(status_of(result)) == result_name(result),
        ({
            let acts = step_spec(s, WindowEvent::Finished { result }).1;
            &&& forall|i: int| 0 <= i < acts.len() ==> (#[trigger] acts[i] matches WindowAction::StoreResult { status }
                ==> status_name(status) == result_name(result))
            &&& forall|i: int| 0 <= i < acts.len() ==> (#[trigger] acts[i] matches WindowAction::Reply { status, .. }
                ==> status_name(status) == result_name(result))
            &&& !s.session ==> acts[0] is StoreResult
            &&& s.session && s.pending is Some ==> acts[0] == WindowAction::Reply {
                ticket: s.pending->0,
                status: status_of(result),
                with_values: true,
            }
        }),
{
}

/// The title of a form's window: the form's title, or `A2N Form`.
pub fn window_title(title: &Option<String>) -> (r: String)
    ensures
        r@ == match title { Some(t) => t@, None => "A2N Form"@ },
{
    match title {
        Some(t) => t.clone(),
        None => crate::text::to_owned_string("A2N Form"),
    }
}

/// The renderer that shows forms in native windows.
#[derive(Debug, Clone, Copy)]
pub struct EguiRenderer;

impl EguiRenderer {
    /// A renderer.
    pub fn new() -> (r: Self)
        ensures
            r == EguiRenderer,
    {
        EguiRenderer
    }
}

impl Default for EguiRenderer {
    fn default() -> (r: Self)
        ensures
            r == EguiRenderer,
    {
        Self::new()
    }
}

} // verus!
