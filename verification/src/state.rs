//! The application state machine: the single consumer of the multiplexed
//! event queue. It owns the current mode, the draft text, and — through a
//! single-slot custody cell — the connection's writer, which it hands out
//! by value for at most one in-flight send at a time.
//!
//! Each transition is a plain function from state and event to new state
//! and one `Effect` for the surrounding interface to perform; the
//! transition relations (`ui_step`, `app_step`, `send_attempt`) are the
//! specification the methods are verified against, and
//! `lemma_writer_mutual_exclusion` states the custody law over them.
//!
//! The writer type is a type parameter: the state machine moves the writer
//! but never looks inside it.

use vstd::prelude::*;
use crate::config::DspClientConfig;
use crate::protocol::{
    DspMessage, DspPayload, MessageMessage, MessageView, PayloadView, QuitMessage,
};

verus! {

/// Relies on `String::push`: appends exactly the given character to the
/// end of the string.
pub assume_specification[ String::push ](s: &mut String, c: char)
    ensures
        final(s)@ == old(s)@.push(c),
;

/// The two modes of the application loop; `Quit` is terminal.
#[derive(Debug, Default, Clone, Copy, PartialEq, Eq, Structural)]
pub enum AppMode {
    #[default]
    Run,
    Quit,
}

/// What one keystroke means to the state machine, independent of any
/// particular terminal backend.
#[derive(Debug, Clone, Copy, PartialEq, Eq, Structural)]
pub enum UiKey {
    Char(char),
    Tab,
    Enter,
    Backspace,
    Esc,
    PageUp,
    PageDown,
    Other,
}

/// Chat-view scrolling the interface is asked to perform.
#[derive(Debug, Clone, Copy, PartialEq, Eq, Structural)]
pub enum ScrollAction {
    CancelScroll,
    PrevPage,
    NextPage,
}

/// The severity a notice or alert is surfaced at.
#[derive(Debug, Clone, Copy, PartialEq, Eq, Structural)]
pub enum LogLevel {
    Debug,
    Info,
    Warning,
    Error,
}

/// A user-visible line classified from a received payload.
///
/// Challenge traffic is deliberately only reported, never answered: the
/// rate-limiting protocol is unimplemented, so a challenge is surfaced as
/// an error warning of possible disconnection.
#[derive(Debug, Clone, PartialEq, Eq)]
pub enum Notice {
    UserJoined(String),
    UserLeft(String),
    ChatLine(String, String),
    ChallengeUnimplemented,
    ChallengeRescinded,
    UnexpectedResponse,
    ServerError(String),
}

impl Notice {
    pub open spec fn spec_severity(&self) -> LogLevel {
        match self {
            Notice::UserJoined(_) => LogLevel::Debug,
            Notice::UserLeft(_) => LogLevel::Debug,
            Notice::ChatLine(_, _) => LogLevel::Info,
            Notice::ChallengeUnimplemented => LogLevel::Error,
            Notice::ChallengeRescinded => LogLevel::Warning,
            Notice::UnexpectedResponse => LogLevel::Warning,
            Notice::ServerError(_) => LogLevel::Error,
        }
    }

    /// How loudly this notice is shown: chat text is information, joins
    /// and quits are background detail, anything touching the
    /// unimplemented challenge protocol or a server error stands out.
    pub fn severity(&self) -> (l: LogLevel)
        ensures
            l == self.spec_severity(),
    {
        match self {
            Notice::UserJoined(_) => LogLevel::Debug,
            Notice::UserLeft(_) => LogLevel::Debug,
            Notice::ChatLine(_, _) => LogLevel::Info,
            Notice::ChallengeUnimplemented => LogLevel::Error,
            Notice::ChallengeRescinded => LogLevel::Warning,
            Notice::UnexpectedResponse => LogLevel::Warning,
            Notice::ServerError(_) => LogLevel::Error,
        }
    }
}

/// A user-visible problem that is not a received payload.
#[derive(Debug, Clone, PartialEq, Eq)]
pub enum AlertKind {
    /// A send was requested with an empty draft; rejected locally.
    EmptyDraft,
    /// The writer is already out for another send; this send is rejected,
    /// not queued.
    SendContention,
    /// A fatal stream error, surfaced but not itself ending the loop.
    Fatal(String),
}

/// One event drawn from the single multiplexed queue.
pub enum AppEvent<W> {
    UiEvent(UiKey),
    PayloadReceived(DspPayload),
    /// A send task finished (well or badly) and returns the writer.
    PayloadSent(W, DspPayload),
    FatalError(String),
    Rerender,
}

/// What the surrounding interface must do after one event is handled.
#[derive(Debug, PartialEq, Eq)]
pub enum Effect<W> {
    Nothing,
    /// Show this classified line.
    ShowNotice(Notice),
    /// Scroll the chat view.
    Scroll(ScrollAction),
    /// Custody was granted: perform one send of this payload with this
    /// writer, then post `PayloadSent` back with both.
    StartSend(W, DspPayload),
    /// Show this problem.
    ShowAlert(AlertKind),
}

/// The state the event consumer owns. No other task mutates any of it.
pub struct AppState<W> {
    pub client_config: DspClientConfig,
    pub mode: AppMode,
    pub tab_names: Vec<&'static str>,
    pub selected_tab: usize,
    pub active_message: String,
    /// Single-slot custody cell for the writer: `Some` exactly when no
    /// send is in flight.
    pub writer_slot: Option<W>,
}

/// The classification table for received payloads: which notice each
/// message kind is surfaced as.
pub open spec fn notice_for(p: PayloadView, n: Notice) -> bool {
    match p.message {
        MessageView::Join => n matches Notice::UserJoined(u) && u@ == p.username,
        MessageView::Quit => n matches Notice::UserLeft(u) && u@ == p.username,
        MessageView::Text(t) => n matches Notice::ChatLine(u, txt) && u@ == p.username && txt@
            == t,
        MessageView::Challenge(_, _) => n == Notice::ChallengeUnimplemented,
        MessageView::Rescinded => n == Notice::ChallengeRescinded,
        MessageView::Response(_) => n == Notice::UnexpectedResponse,
        MessageView::Error(t) => n matches Notice::ServerError(txt) && txt@ == t,
    }
}

/// One attempt to take custody of the writer and send a payload whose view
/// is `pv`: if the slot holds the writer, the attempt succeeds and starts
/// exactly one send of that payload; otherwise it is rejected with a
/// contention alert and nothing is sent. Either way the slot ends empty
/// and every other field is untouched.
pub open spec fn send_attempt<W>(
    pre: AppState<W>,
    post: AppState<W>,
    pv: PayloadView,
    eff: Effect<W>,
) -> bool {
    &&& post.mode == pre.mode
    &&& post.selected_tab == pre.selected_tab
    &&& post.tab_names == pre.tab_names
    &&& post.client_config == pre.client_config
    &&& post.active_message == pre.active_message
    &&& post.writer_slot is None
    &&& if pre.writer_slot is Some {
        eff matches Effect::StartSend(w, p) && w == pre.writer_slot.unwrap() && p@ == pv
    } else {
        eff == Effect::ShowAlert::<W>(AlertKind::SendContention)
    }
}

/// The transition a keystroke causes, by current focus: tab switching,
/// chat scrolling, draft editing, and the send and quit triggers.
pub open spec fn ui_step<W>(
    pre: AppState<W>,
    post: AppState<W>,
    key: UiKey,
    eff: Effect<W>,
) -> bool {
    match key {
        UiKey::Tab => tab_switch(pre, post) && eff == Effect::Nothing::<W>,
        UiKey::Char(c) => if c == '\t' {
            tab_switch(pre, post) && eff == Effect::Nothing::<W>
        } else if pre.selected_tab == 0 {
            draft_push(pre, post, c) && eff == Effect::Nothing::<W>
        } else {
            post == pre && eff == Effect::Nothing::<W>
        },
        UiKey::Esc => post == pre && eff == Effect::Scroll::<W>(ScrollAction::CancelScroll),
        UiKey::PageUp => post == pre && eff == Effect::Scroll::<W>(ScrollAction::PrevPage),
        UiKey::PageDown => post == pre && eff == Effect::Scroll::<W>(ScrollAction::NextPage),
        UiKey::Backspace => if pre.selected_tab == 0 {
            draft_pop(pre, post) && eff == Effect::Nothing::<W>
        } else {
            post == pre && eff == Effect::Nothing::<W>
        },
        UiKey::Enter => if pre.selected_tab == 0 {
            send_draft_step(pre, post, eff)
        } else if pre.selected_tab == 1 {
            send_attempt(
                pre,
                post,
                PayloadView { username: pre.client_config.username@, message: MessageView::Quit },
                eff,
            )
        } else {
            post == pre && eff == Effect::Nothing::<W>
        },
        UiKey::Other => post == pre && eff == Effect::Nothing::<W>,
    }
}

/// Focus moves to the next tab, cyclically; nothing else changes.
pub open spec fn tab_switch<W>(pre: AppState<W>, post: AppState<W>) -> bool {
    &&& post.selected_tab == (pre.selected_tab + 1) % (pre.tab_names@.len() as int)
    &&& post.mode == pre.mode
    &&& post.tab_names == pre.tab_names
    &&& post.client_config == pre.client_config
    &&& post.active_message == pre.active_message
    &&& post.writer_slot == pre.writer_slot
}

/// One character joins the end of the draft; nothing else changes.
pub open spec fn draft_push<W>(pre: AppState<W>, post: AppState<W>, c: char) -> bool {
    &&& post.active_message@ == pre.active_message@.push(c)
    &&& post.mode == pre.mode
    &&& post.selected_tab == pre.selected_tab
    &&& post.tab_names == pre.tab_names
    &&& post.client_config == pre.client_config
    &&& post.writer_slot == pre.writer_slot
}

/// The last draft character is removed, if there is one; nothing else
/// changes.
pub open spec fn draft_pop<W>(pre: AppState<W>, post: AppState<W>) -> bool {
    &&& post.active_message@ == if pre.active_message@.len() == 0 {
        pre.active_message@
    } else {
        pre.active_message@.drop_last()
    }
    &&& post.mode == pre.mode
    &&& post.selected_tab == pre.selected_tab
    &&& post.tab_names == pre.tab_names
    &&& post.client_config == pre.client_config
    &&& post.writer_slot == pre.writer_slot
}

/// The send trigger: an empty draft is rejected locally with no state
/// change and no network traffic; otherwise a text payload built from the
/// configured username and the draft makes one custody attempt.
pub open spec fn send_draft_step<W>(pre: AppState<W>, post: AppState<W>, eff: Effect<W>) -> bool {
    if pre.active_message@.len() == 0 {
        post == pre && eff == Effect::ShowAlert::<W>(AlertKind::EmptyDraft)
    } else {
        send_attempt(
            pre,
            post,
            PayloadView {
                username: pre.client_config.username@,
                message: MessageView::Text(pre.active_message@),
            },
            eff,
        )
    }
}

/// A finished send returns the writer to custody whatever was sent; a sent
/// quit makes the mode terminal, a sent text clears the draft.
pub open spec fn payload_sent_step<W>(
    pre: AppState<W>,
    post: AppState<W>,
    w: W,
    p: DspPayload,
    eff: Effect<W>,
) -> bool {
    &&& eff == Effect::Nothing::<W>
    &&& post.writer_slot == Some(w)
    &&& post.selected_tab == pre.selected_tab
    &&& post.tab_names == pre.tab_names
    &&& post.client_config == pre.client_config
    &&& post.mode == if p@.message is Quit {
        AppMode::Quit
    } else {
        pre.mode
    }
    &&& post.active_message@ == if p@.message is Text {
        Seq::<char>::empty()
    } else {
        pre.active_message@
    }
}

/// The whole event table: what each kind of multiplexed event does to the
/// state and what it asks of the interface.
pub open spec fn app_step<W>(
    pre: AppState<W>,
    post: AppState<W>,
    ev: AppEvent<W>,
    eff: Effect<W>,
) -> bool {
    match ev {
        AppEvent::UiEvent(k) => ui_step(pre, post, k, eff),
        AppEvent::PayloadReceived(p) => post == pre && (eff matches Effect::ShowNotice(n)
            && notice_for(p@, n)),
        AppEvent::PayloadSent(w, p) => payload_sent_step(pre, post, w, p, eff),
        AppEvent::FatalError(msg) => post == pre && eff == Effect::ShowAlert::<W>(
            AlertKind::Fatal(msg),
        ),
        AppEvent::Rerender => post == pre && eff == Effect::Nothing::<W>,
    }
}

impl<W> AppState<W> {
    /// The two tabs exist and the focus points at one of them.
    pub open spec fn wf(&self) -> bool {
        self.tab_names@.len() == 2 && self.selected_tab < 2
    }

    /// Custody is idle: the state machine holds the writer, no send is in
    /// flight.
    pub open spec fn custody_idle(&self) -> bool {
        self.writer_slot is Some
    }

    /// The state at startup: running, first tab focused, empty draft, and
    /// the writer in custody.
    pub fn new(client_writer: W, client_config: DspClientConfig) -> (s: AppState<W>)
        ensures
            s.wf(),
            s.mode == AppMode::Run,
            s.selected_tab == 0,
            s.active_message@ == Seq::<char>::empty(),
            s.writer_slot == Some(client_writer),
            s.client_config == client_config,
    {
        let mut tab_names: Vec<&'static str> = Vec::new();
        tab_names.push("Message");
        tab_names.push("Quit");
        AppState {
            client_config,
            mode: AppMode::Run,
            tab_names,
            selected_tab: 0,
            active_message: String::new(),
            writer_slot: Some(client_writer),
        }
    }

    /// Moves focus to the next tab, cyclically.
    pub fn next_tab(&mut self)
        requires
            old(self).wf(),
        ensures
            final(self).wf(),
            tab_switch(*old(self), *final(self)),
    {
        self.selected_tab = (self.selected_tab + 1) % self.tab_names.len();
    }

    /// Appends one character to the draft.
    pub fn add_active_message(&mut self, c: char)
        ensures
            draft_push(*old(self), *final(self), c),
    {
        self.active_message.push(c);
    }

    /// Removes the last character of the draft, if any.
    pub fn backspace_active_message(&mut self)
        ensures
            draft_pop(*old(self), *final(self)),
    {
        let n = self.active_message.as_str().unicode_len();
        if n > 0 {
            let trimmed = self.active_message.as_str().substring_char(0, n - 1).to_owned();
            proof {
                assert(trimmed@ =~= self.active_message@.drop_last());
            }
            self.active_message = trimmed;
        }
    }

    /// One non-blocking custody attempt for sending `payload`: takes the
    /// writer if it is in its slot, else rejects with a contention alert.
    fn send_payload(&mut self, payload: DspPayload) -> (eff: Effect<W>)
        ensures
            send_attempt(*old(self), *final(self), payload@, eff),
            old(self).custody_idle() ==> eff == Effect::StartSend::<W>(
                old(self).writer_slot.unwrap(),
                payload,
            ),
    {
        let mut slot: Option<W> = None;
        core::mem::swap(&mut slot, &mut self.writer_slot);
        match slot {
            Some(w) => Effect::StartSend(w, payload),
            None => Effect::ShowAlert(AlertKind::SendContention),
        }
    }

    /// The quit trigger: one custody attempt for a quit payload under the
    /// configured username.
    pub fn trigger_quit(&mut self) -> (eff: Effect<W>)
        ensures
            send_attempt(
                *old(self),
                *final(self),
                PayloadView {
                    username: old(self).client_config.username@,
                    message: MessageView::Quit,
                },
                eff,
            ),
    {
        let username = self.client_config.username.clone();
        self.send_payload(
            DspPayload { username, message: DspMessage::QuitMessage(QuitMessage {}) },
        )
    }

    /// The send trigger: rejects an empty draft locally, else makes one
    /// custody attempt for a text payload built from the draft.
    pub fn send_active_message(&mut self) -> (eff: Effect<W>)
        ensures
            send_draft_step(*old(self), *final(self), eff),
    {
        if self.active_message.as_str().is_empty() {
            return Effect::ShowAlert(AlertKind::EmptyDraft);
        }
        let username = self.client_config.username.clone();
        let text = self.active_message.clone();
        self.send_payload(
            DspPayload { username, message: DspMessage::MessageMessage(MessageMessage { text }) },
        )
    }

    /// A finished text send: the writer comes home and the draft clears.
    pub fn active_message_sent(&mut self, writer: W)
        ensures
            final(self).writer_slot == Some(writer),
            final(self).active_message@ == Seq::<char>::empty(),
            final(self).mode == old(self).mode,
            final(self).selected_tab == old(self).selected_tab,
            final(self).tab_names == old(self).tab_names,
            final(self).client_config == old(self).client_config,
    {
        self.writer_slot = Some(writer);
        self.active_message = String::new();
    }

    /// Classifies a received payload for display. The state does not
    /// change: showing the notice is the interface's business.
    pub fn react_to_payload(&self, payload: DspPayload) -> (n: Notice)
        ensures
            notice_for(payload@, n),
    {
        let DspPayload { username, message } = payload;
        match message {
            DspMessage::JoinMessage(_) => Notice::UserJoined(username),
            DspMessage::QuitMessage(_) => Notice::UserLeft(username),
            DspMessage::MessageMessage(m) => Notice::ChatLine(username, m.text),
            DspMessage::ChallengeMessage(_) => Notice::ChallengeUnimplemented,
            DspMessage::RescindedMessage(_) => Notice::ChallengeRescinded,
            DspMessage::ResponseMessage(_) => Notice::UnexpectedResponse,
            DspMessage::ErrorMessage(m) => Notice::ServerError(m.text),
        }
    }

    /// Dispatches one keystroke by the current focus.
    pub fn handle_ui_event(&mut self, key: UiKey) -> (eff: Effect<W>)
        requires
            old(self).wf(),
        ensures
            final(self).wf(),
            ui_step(*old(self), *final(self), key, eff),
    {
        match key {
            UiKey::Tab => {
                self.next_tab();
                Effect::Nothing
            },
            UiKey::Char(c) => {
                if c == '\t' {
                    self.next_tab();
                    Effect::Nothing
                } else if self.selected_tab == 0 {
                    self.add_active_message(c);
                    Effect::Nothing
                } else {
                    Effect::Nothing
                }
            },
            UiKey::Esc => Effect::Scroll(ScrollAction::CancelScroll),
            UiKey::PageUp => Effect::Scroll(ScrollAction::PrevPage),
            UiKey::PageDown => Effect::Scroll(ScrollAction::NextPage),
            UiKey::Backspace => {
                if self.selected_tab == 0 {
                    self.backspace_active_message();
                }
                Effect::Nothing
            },
            UiKey::Enter => {
                if self.selected_tab == 0 {
                    self.send_active_message()
                } else {
                    self.trigger_quit()
                }
            },
            UiKey::Other => Effect::Nothing,
        }
    }

    /// Handles one event from the multiplexed queue: the whole event table
    /// in one place.
    pub fn handle_app_event(&mut self, event: AppEvent<W>) -> (eff: Effect<W>)
        requires
            old(self).wf(),
        ensures
            final(self).wf(),
            app_step(*old(self), *final(self), event, eff),
    {
        match event {
            AppEvent::UiEvent(k) => self.handle_ui_event(k),
            AppEvent::PayloadReceived(p) => {
                let n = self.react_to_payload(p);
                Effect::ShowNotice(n)
            },
            AppEvent::PayloadSent(w, p) => {
                match &p.message {
                    DspMessage::QuitMessage(_) => {
                        self.writer_slot = Some(w);
                        self.mode = AppMode::Quit;
                    },
                    DspMessage::MessageMessage(_) => {
                        self.active_message_sent(w);
                    },
                    _ => {
                        self.writer_slot = Some(w);
                    },
                }
                Effect::Nothing
            },
            AppEvent::FatalError(msg) => Effect::ShowAlert(AlertKind::Fatal(msg)),
            AppEvent::Rerender => Effect::Nothing,
        }
    }
}

/// Writer mutual exclusion: of two send attempts made one after the other
/// before any send completes, at most one is granted the writer. If
/// custody started idle, exactly the first is granted — with its payload,
/// once — and the second is rejected with a contention alert; if custody
/// was already out, both are rejected.
pub proof fn lemma_writer_mutual_exclusion<W>(
    s0: AppState<W>,
    s1: AppState<W>,
    s2: AppState<W>,
    pv1: PayloadView,
    pv2: PayloadView,
    eff1: Effect<W>,
    eff2: Effect<W>,
)
    requires
        send_attempt(s0, s1, pv1, eff1),
        send_attempt(s1, s2, pv2, eff2),
    ensures
        !(eff1 is StartSend && eff2 is StartSend),
        eff2 == Effect::ShowAlert::<W>(AlertKind::SendContention),
        s0.custody_idle() ==> (eff1 matches Effect::StartSend(w, p) && w
            == s0.writer_slot.unwrap() && p@ == pv1),
        !s0.custody_idle() ==> eff1 == Effect::ShowAlert::<W>(AlertKind::SendContention),
{
}

} // verus!