use a2native::form::FormResult;
use a2native::protocol::OutputStatus;
use a2native::window::{
    frame_result, initial_window, step, window_title, EguiRenderer, WindowAction, WindowEvent,
};

#[test]
fn one_form_window_keeps_result_and_closes() {
    let s = initial_window(None);
    let (s2, acts) = step(s, WindowEvent::Finished { result: FormResult::Submitted });
    assert!(s2.closing);
    assert_eq!(
        acts,
        vec![WindowAction::StoreResult { status: OutputStatus::Submitted }, WindowAction::CloseWindow]
    );
    let (s3, acts) = step(s2, WindowEvent::Finished { result: FormResult::Cancelled });
    assert_eq!(s3, s2);
    assert!(acts.is_empty());
}

#[test]
fn session_submit_waits_for_next_form() {
    let s = initial_window(Some(1));
    let (s, acts) = step(s, WindowEvent::Finished { result: FormResult::Submitted });
    assert!(s.waiting && !s.closing && s.pending.is_none());
    assert_eq!(
        acts,
        vec![WindowAction::Reply { ticket: 1, status: OutputStatus::Submitted, with_values: true }]
    );
    let (s2, acts) = step(s, WindowEvent::Finished { result: FormResult::Timeout });
    assert_eq!(s2, s);
    assert!(acts.is_empty());
    let (s, acts) = step(s, WindowEvent::FormArrived { ticket: 2 });
    assert!(!s.waiting);
    assert_eq!(s.pending, Some(2));
    assert_eq!(acts, vec![WindowAction::LoadForm]);
}

#[test]
fn new_form_cancels_the_pending_request() {
    let s = initial_window(Some(7));
    let (s, acts) = step(s, WindowEvent::FormArrived { ticket: 8 });
    assert_eq!(s.pending, Some(8));
    assert_eq!(
        acts,
        vec![
            WindowAction::Reply { ticket: 7, status: OutputStatus::Cancelled, with_values: false },
            WindowAction::LoadForm
        ]
    );
}

#[test]
fn session_cancel_and_close_remove_port_file() {
    let s = initial_window(Some(3));
    let (s1, acts) = step(s, WindowEvent::Finished { result: FormResult::Cancelled });
    assert!(s1.closing);
    assert_eq!(
        acts,
        vec![
            WindowAction::Reply { ticket: 3, status: OutputStatus::Cancelled, with_values: true },
            WindowAction::RemovePortFile,
            WindowAction::CloseWindow
        ]
    );
    let (s2, acts) = step(s, WindowEvent::CloseRequested);
    assert!(s2.closing && s2.pending.is_none());
    assert_eq!(
        acts,
        vec![
            WindowAction::Reply { ticket: 3, status: OutputStatus::Cancelled, with_values: false },
            WindowAction::RemovePortFile,
            WindowAction::CloseWindow
        ]
    );
}

#[test]
fn timeout_comes_before_the_users_choice() {
    let s = initial_window(None);
    assert_eq!(frame_result(s, Some(10), 10, Some(FormResult::Submitted)), Some(FormResult::Timeout));
    assert_eq!(frame_result(s, Some(10), 9, Some(FormResult::Submitted)), Some(FormResult::Submitted));
    assert_eq!(frame_result(s, None, 99, None), None);
    let (waiting, _) = step(initial_window(Some(1)), WindowEvent::Finished { result: FormResult::Submitted });
    assert_eq!(frame_result(waiting, Some(0), 5, Some(FormResult::Cancelled)), None);
}

#[test]
fn titles_and_renderer() {
    assert_eq!(window_title(&Some("Deploy".to_string())), "Deploy");
    assert_eq!(window_title(&None), "A2N Form");
    let _r: EguiRenderer = EguiRenderer::new();
    let _d: EguiRenderer = EguiRenderer::default();
}
