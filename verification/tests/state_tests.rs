use uiop_dsp::codec::frame_bytes;
use uiop_dsp::config::DspClientConfig;
use uiop_dsp::protocol::{
    ChallengeMessage, DspMessage, DspPayload, ErrorMessage, JoinMessage, MessageMessage,
    QuitMessage, RescindedMessage, ResponseMessage,
};
use uiop_dsp::state::{
    AlertKind, AppEvent, AppMode, AppState, Effect, LogLevel, Notice, ScrollAction, UiKey,
};

// in these tests the writer is a plain token: the state machine only ever
// moves it
type Writer = u32;

fn fresh(user: &str) -> AppState<Writer> {
    AppState::new(
        7,
        DspClientConfig {
            server_address: String::from("127.0.0.1:1337"),
            username: String::from(user),
        },
    )
}

#[test]
fn typing_hi_and_enter_sends_one_exact_frame() {
    // "hi" + Enter with username "alice" produces exactly one outbound
    // frame "alice MESSAGE hi\0"
    let mut app = fresh("alice");
    assert_eq!(app.handle_ui_event(UiKey::Char('h')), Effect::Nothing);
    assert_eq!(app.handle_ui_event(UiKey::Char('i')), Effect::Nothing);
    match app.handle_ui_event(UiKey::Enter) {
        Effect::StartSend(w, p) => {
            assert_eq!(w, 7);
            assert_eq!(frame_bytes(p.clone()), b"alice MESSAGE hi\0".to_vec());
            // the send completes: the writer comes home, the draft clears
            assert_eq!(
                app.handle_app_event(AppEvent::PayloadSent(w, p)),
                Effect::Nothing
            );
            assert_eq!(app.active_message, String::from(""));
            assert_eq!(app.writer_slot, Some(7));
            assert_eq!(app.mode, AppMode::Run);
        }
        other => panic!("expected a send to start, got {:?}", other),
    }
}

#[test]
fn quit_trigger_sends_quit_frame_and_completion_quits() {
    let mut app = fresh("zoe");
    match app.trigger_quit() {
        Effect::StartSend(w, p) => {
            assert_eq!(frame_bytes(p.clone()), b"zoe QUIT\0".to_vec());
            app.handle_app_event(AppEvent::PayloadSent(w, p));
            assert_eq!(app.mode, AppMode::Quit);
        }
        other => panic!("expected a send to start, got {:?}", other),
    }
}

#[test]
fn quit_via_second_tab_enter() {
    let mut app = fresh("zoe");
    assert_eq!(app.handle_ui_event(UiKey::Tab), Effect::Nothing);
    assert_eq!(app.selected_tab, 1);
    match app.handle_ui_event(UiKey::Enter) {
        Effect::StartSend(_, p) => {
            assert_eq!(
                p,
                DspPayload {
                    username: String::from("zoe"),
                    message: DspMessage::QuitMessage(QuitMessage {}),
                }
            );
        }
        other => panic!("expected a send to start, got {:?}", other),
    }
}

#[test]
fn second_send_attempt_is_rejected_while_first_in_flight() {
    // exactly one of two send attempts acquires the writer; the other is
    // rejected with a contention error, and nothing is lost or doubled
    let mut app = fresh("alice");
    app.handle_ui_event(UiKey::Char('x'));
    let first = app.handle_ui_event(UiKey::Enter);
    assert!(matches!(first, Effect::StartSend(7, _)));
    // the first send has not completed; try again
    let second = app.handle_ui_event(UiKey::Enter);
    assert_eq!(second, Effect::ShowAlert(AlertKind::SendContention));
    // quitting is rejected the same way while the writer is out
    let third = app.trigger_quit();
    assert_eq!(third, Effect::ShowAlert(AlertKind::SendContention));
}

#[test]
fn empty_draft_is_rejected_locally() {
    let mut app = fresh("alice");
    assert_eq!(
        app.handle_ui_event(UiKey::Enter),
        Effect::ShowAlert(AlertKind::EmptyDraft)
    );
    // the writer never left its slot
    assert_eq!(app.writer_slot, Some(7));
}

#[test]
fn tab_switching_wraps_and_second_tab_ignores_typing() {
    let mut app = fresh("alice");
    app.handle_ui_event(UiKey::Tab);
    assert_eq!(app.selected_tab, 1);
    // typing on the quit tab does not edit the draft
    app.handle_ui_event(UiKey::Char('x'));
    assert_eq!(app.active_message, String::from(""));
    app.handle_ui_event(UiKey::Char('\t'));
    assert_eq!(app.selected_tab, 0);
}

#[test]
fn backspace_edits_draft() {
    let mut app = fresh("alice");
    app.handle_ui_event(UiKey::Char('h'));
    app.handle_ui_event(UiKey::Char('i'));
    app.handle_ui_event(UiKey::Backspace);
    assert_eq!(app.active_message, String::from("h"));
    app.handle_ui_event(UiKey::Backspace);
    app.handle_ui_event(UiKey::Backspace);
    assert_eq!(app.active_message, String::from(""));
}

#[test]
fn scroll_keys_ask_for_scrolling() {
    let mut app = fresh("alice");
    assert_eq!(
        app.handle_ui_event(UiKey::Esc),
        Effect::Scroll(ScrollAction::CancelScroll)
    );
    assert_eq!(
        app.handle_ui_event(UiKey::PageUp),
        Effect::Scroll(ScrollAction::PrevPage)
    );
    assert_eq!(
        app.handle_ui_event(UiKey::PageDown),
        Effect::Scroll(ScrollAction::NextPage)
    );
}

fn notice_of(app: &mut AppState<Writer>, message: DspMessage) -> Notice {
    let p = DspPayload {
        username: String::from("carol"),
        message,
    };
    match app.handle_app_event(AppEvent::PayloadReceived(p)) {
        Effect::ShowNotice(n) => n,
        other => panic!("expected a notice, got {:?}", other),
    }
}

#[test]
fn received_payloads_are_classified() {
    let mut app = fresh("alice");
    let n = notice_of(&mut app, DspMessage::JoinMessage(JoinMessage {}));
    assert_eq!(n, Notice::UserJoined(String::from("carol")));
    assert_eq!(n.severity(), LogLevel::Debug);

    let n = notice_of(&mut app, DspMessage::QuitMessage(QuitMessage {}));
    assert_eq!(n, Notice::UserLeft(String::from("carol")));
    assert_eq!(n.severity(), LogLevel::Debug);

    let n = notice_of(
        &mut app,
        DspMessage::MessageMessage(MessageMessage {
            text: String::from("hello"),
        }),
    );
    assert_eq!(
        n,
        Notice::ChatLine(String::from("carol"), String::from("hello"))
    );
    assert_eq!(n.severity(), LogLevel::Info);

    let n = notice_of(
        &mut app,
        DspMessage::ChallengeMessage(ChallengeMessage {
            n: 3,
            phrase: String::from("abc"),
        }),
    );
    assert_eq!(n, Notice::ChallengeUnimplemented);
    assert_eq!(n.severity(), LogLevel::Error);

    let n = notice_of(&mut app, DspMessage::RescindedMessage(RescindedMessage {}));
    assert_eq!(n, Notice::ChallengeRescinded);
    assert_eq!(n.severity(), LogLevel::Warning);

    let n = notice_of(
        &mut app,
        DspMessage::ResponseMessage(ResponseMessage {
            phrase: String::from("zzz"),
        }),
    );
    assert_eq!(n, Notice::UnexpectedResponse);
    assert_eq!(n.severity(), LogLevel::Warning);

    let n = notice_of(
        &mut app,
        DspMessage::ErrorMessage(ErrorMessage {
            text: String::from("kaboom"),
        }),
    );
    assert_eq!(n, Notice::ServerError(String::from("kaboom")));
    assert_eq!(n.severity(), LogLevel::Error);
}

#[test]
fn fatal_error_is_surfaced_but_does_not_quit() {
    let mut app = fresh("alice");
    let eff = app.handle_app_event(AppEvent::FatalError(String::from("connection lost")));
    assert_eq!(
        eff,
        Effect::ShowAlert(AlertKind::Fatal(String::from("connection lost")))
    );
    assert_eq!(app.mode, AppMode::Run);
}

#[test]
fn rerender_changes_nothing() {
    let mut app = fresh("alice");
    assert_eq!(app.handle_app_event(AppEvent::Rerender), Effect::Nothing);
    assert_eq!(app.mode, AppMode::Run);
    assert_eq!(app.writer_slot, Some(7));
}

#[test]
fn completed_non_text_send_returns_writer() {
    // custody returns to idle on every completion, not just text sends
    let mut app = fresh("alice");
    let eff = app.trigger_quit();
    assert!(matches!(eff, Effect::StartSend(_, _)));
    let p = DspPayload {
        username: String::from("alice"),
        message: DspMessage::ResponseMessage(ResponseMessage {
            phrase: String::from("x"),
        }),
    };
    app.handle_app_event(AppEvent::PayloadSent(7, p));
    assert_eq!(app.writer_slot, Some(7));
    assert_eq!(app.mode, AppMode::Run);
}
