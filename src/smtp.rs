//! The client side of an SMTP session, as a state machine.
//!
//! The session never touches the network. Its owner performs each
//! [`SmtpAction`] it returns (read a reply, send a command and read the
//! reply, upgrade the connection, close it) and hands back what happened
//! as an [`SmtpEvent`].

use vstd::prelude::*;
use vstd::slice::slice_to_vec;
use crate::body::is_digit;
use crate::bytes::concat3;
use crate::error::{SmtpError, SmtpStep};
use crate::form::HttpMessage;

verus! {

/// Whether the session upgrades to an encrypted transport before sending.
#[derive(Debug, Clone, Copy, PartialEq, Eq, Structural)]
pub enum AuthenticationMethod {
    Tls,
    NoTls,
}

/// The transport currently under the session.
#[derive(Debug, Clone, Copy, PartialEq, Eq, Structural)]
pub enum Security {
    PlainText,
    TlsUpgraded,
}

/// How far the session has come. In each state but `Closed` the session
/// waits for one event: the reply to what it last asked for, or the outcome
/// of the upgrade.
#[derive(Debug, Clone, Copy, PartialEq, Eq, Structural)]
pub enum SessionState {
    /// Connected; waiting for the greeting.
    Connected,
    /// Greeting accepted; EHLO sent.
    GreetingOk,
    /// EHLO accepted; STARTTLS sent if an upgrade is still due, else MAIL FROM.
    EhloOk,
    /// STARTTLS accepted; the upgrade is under way.
    TlsReady,
    /// Upgrade done; EHLO sent again.
    TlsNegotiated,
    /// Sender accepted; RCPT TO sent.
    SenderAccepted,
    /// Recipient accepted; DATA sent.
    ReadyToSend,
    /// DATA accepted; message sent with its terminating line.
    DataOpen,
    /// Message accepted; QUIT sent.
    MessageSent,
    /// Over; the connection is to be released.
    Closed,
}

/// A message to relay.
#[derive(Debug, Clone, PartialEq, Eq)]
pub struct SmtpMessage {
    pub to: Option<Vec<u8>>,
    pub from: Option<Vec<u8>>,
    pub subject: Option<Vec<u8>>,
    pub content: Option<Vec<u8>>,
}

/// One reply of the server: its status code and the rest of its line.
#[derive(Debug, Clone, PartialEq, Eq)]
pub struct SmtpReply {
    pub code: u16,
    pub text: Vec<u8>,
}

/// What happened after the last action.
#[derive(Debug, Clone, PartialEq, Eq)]
pub enum SmtpEvent {
    /// A complete reply arrived.
    Reply(SmtpReply),
    /// The connection now runs over the encrypted transport.
    TlsEstablished,
    /// The upgrade to the encrypted transport failed.
    TlsFailed,
    /// A read or write failed, or the peer closed the connection.
    ConnectionLost,
}

/// What the owner of the session is to do next.
#[derive(Debug, Clone, PartialEq, Eq)]
pub enum SmtpAction {
    /// Write these bytes, then read one reply.
    Send(Vec<u8>),
    /// Wrap the connection in the encrypted transport.
    UpgradeTls,
    /// Release the connection; the outcome is final.
    Close,
}

/// The spec-level form of an [`SmtpAction`].
pub enum ActionView {
    Send(Seq<u8>),
    UpgradeTls,
    Close,
}

impl View for SmtpAction {
    type V = ActionView;

    open spec fn view(&self) -> ActionView {
        match self {
            SmtpAction::Send(b) => ActionView::Send(b@),
            SmtpAction::UpgradeTls => ActionView::UpgradeTls,
            SmtpAction::Close => ActionView::Close,
        }
    }
}

/// `EHLO <identity>\r\n`.
pub open spec fn ehlo_line(identity: Seq<u8>) -> Seq<u8> {
    seq![69u8, 72u8, 76u8, 79u8, 32u8] + identity + seq![13u8, 10u8]
}

/// `STARTTLS\r\n`.
pub open spec fn starttls_line() -> Seq<u8> {
    seq![83u8, 84u8, 65u8, 82u8, 84u8, 84u8, 76u8, 83u8, 13u8, 10u8]
}

/// `MAIL FROM:<sender>\r\n`.
pub open spec fn mail_from_line(sender: Seq<u8>) -> Seq<u8> {
    seq![77u8, 65u8, 73u8, 76u8, 32u8, 70u8, 82u8, 79u8, 77u8, 58u8, 60u8] + sender + seq![
        62u8,
        13u8,
        10u8,
    ]
}

/// `RCPT TO:<recipient>\r\n`.
pub open spec fn rcpt_to_line(recipient: Seq<u8>) -> Seq<u8> {
    seq![82u8, 67u8, 80u8, 84u8, 32u8, 84u8, 79u8, 58u8, 60u8] + recipient + seq![62u8, 13u8, 10u8]
}

/// `DATA\r\n`.
pub open spec fn data_line() -> Seq<u8> {
    seq![68u8, 65u8, 84u8, 65u8, 13u8, 10u8]
}

/// `QUIT\r\n`.
pub open spec fn quit_line() -> Seq<u8> {
    seq![81u8, 85u8, 73u8, 84u8, 13u8, 10u8]
}

/// The message text sent after DATA: a `Subject:` header, an empty line,
/// the content, and the line holding only `.` that ends it.
pub open spec fn message_text(subject: Seq<u8>, content: Seq<u8>) -> Seq<u8> {
    seq![83u8, 117u8, 98u8, 106u8, 101u8, 99u8, 116u8, 58u8, 32u8] + subject + seq![
        13u8,
        10u8,
        13u8,
        10u8,
    ] + content + seq![13u8, 10u8, 46u8, 13u8, 10u8]
}

/// The bytes of an optional value; nothing when absent.
pub open spec fn or_empty(v: Option<Vec<u8>>) -> Seq<u8> {
    match v {
        Some(b) => b@,
        None => Seq::empty(),
    }
}

/// Everything the state machine depends on.
pub struct SessionView {
    pub state: SessionState,
    pub security: Security,
    pub method: AuthenticationMethod,
    pub identity: Seq<u8>,
    pub sender: Seq<u8>,
    pub recipient: Seq<u8>,
    pub text: Seq<u8>,
    pub outcome: Option<Result<(), SmtpError>>,
}

/// The session closed with `e`.
pub open spec fn failed(s: SessionView, e: SmtpError) -> (SessionView, ActionView) {
    (SessionView { state: SessionState::Closed, outcome: Some(Err(e)), ..s }, ActionView::Close)
}

/// The session moved on to `state` and asks to send `line`.
pub open spec fn sends(s: SessionView, state: SessionState, line: Seq<u8>) -> (SessionView, ActionView) {
    (SessionView { state, ..s }, ActionView::Send(line))
}

/// True when STARTTLS is still due: the caller asked for it and the
/// transport is still plain text.
pub open spec fn upgrade_due(s: SessionView) -> bool {
    s.method == AuthenticationMethod::Tls && s.security == Security::PlainText
}

/// The reply to a submission command: on `expected` the session moves to
/// `state` and sends `line`; another code ends it with `CommandRejected`;
/// anything else with `IoFailure`.
pub open spec fn submission(
    s: SessionView,
    e: SmtpEvent,
    expected: u16,
    step: SmtpStep,
    state: SessionState,
    line: Seq<u8>,
) -> (SessionView, ActionView) {
    match e {
        SmtpEvent::Reply(r) => if r.code == expected {
            sends(s, state, line)
        } else {
            failed(s, SmtpError::CommandRejected(step, r.code, r.text))
        },
        _ => failed(s, SmtpError::IoFailure),
    }
}

/// The next state and action of the session after event `e`.
pub open spec fn transition(s: SessionView, e: SmtpEvent) -> (SessionView, ActionView) {
    match s.state {
        SessionState::Connected => match e {
            SmtpEvent::Reply(r) if r.code == 220 => sends(
                s,
                SessionState::GreetingOk,
                ehlo_line(s.identity),
            ),
            _ => failed(s, SmtpError::UnexpectedGreeting),
        },
        SessionState::GreetingOk => match e {
            SmtpEvent::Reply(r) => if r.code != 250 {
                failed(s, SmtpError::HandshakeRejected(r.code, r.text))
            } else if upgrade_due(s) {
                sends(s, SessionState::EhloOk, starttls_line())
            } else {
                sends(s, SessionState::EhloOk, mail_from_line(s.sender))
            },
            _ => failed(s, SmtpError::IoFailure),
        },
        SessionState::EhloOk => if upgrade_due(s) {
            match e {
                SmtpEvent::Reply(r) if r.code == 220 => (
                    SessionView { state: SessionState::TlsReady, ..s },
                    ActionView::UpgradeTls,
                ),
                _ => failed(s, SmtpError::TlsUpgradeFailed),
            }
        } else {
            submission(
                s,
                e,
                250,
                SmtpStep::MailFrom,
                SessionState::SenderAccepted,
                rcpt_to_line(s.recipient),
            )
        },
        SessionState::TlsReady => match e {
            SmtpEvent::TlsEstablished => (
                SessionView {
                    state: SessionState::TlsNegotiated,
                    security: Security::TlsUpgraded,
                    ..s
                },
                ActionView::Send(ehlo_line(s.identity)),
            ),
            _ => failed(s, SmtpError::TlsUpgradeFailed),
        },
        SessionState::TlsNegotiated => match e {
            SmtpEvent::Reply(r) if r.code == 250 => sends(
                s,
                SessionState::EhloOk,
                mail_from_line(s.sender),
            ),
            _ => failed(s, SmtpError::TlsUpgradeFailed),
        },
        SessionState::SenderAccepted => submission(
            s,
            e,
            250,
            SmtpStep::RcptTo,
            SessionState::ReadyToSend,
            data_line(),
        ),
        SessionState::ReadyToSend => submission(
            s,
            e,
            354,
            SmtpStep::Data,
            SessionState::DataOpen,
            s.text,
        ),
        SessionState::DataOpen => submission(
            s,
            e,
            250,
            SmtpStep::EndOfData,
            SessionState::MessageSent,
            quit_line(),
        ),
        SessionState::MessageSent => (
            SessionView { state: SessionState::Closed, outcome: Some(Ok(())), ..s },
            ActionView::Close,
        ),
        SessionState::Closed => (s, ActionView::Close),
    }
}

/// A copy of an optional value's bytes; empty when absent.
fn bytes_or_empty(v: &Option<Vec<u8>>) -> (r: Vec<u8>)
    ensures
        r@ == or_empty(*v),
{
    match v {
        Some(b) => slice_to_vec(b.as_slice()),
        None => Vec::new(),
    }
}

/// A session that sends one message to one recipient.
pub struct SmtpSession {
    state: SessionState,
    security: Security,
    method: AuthenticationMethod,
    identity: Vec<u8>,
    sender: Vec<u8>,
    recipient: Vec<u8>,
    text: Vec<u8>,
    outcome: Option<Result<(), SmtpError>>,
}

impl View for SmtpSession {
    type V = SessionView;

    closed spec fn view(&self) -> SessionView {
        SessionView {
            state: self.state,
            security: self.security,
            method: self.method,
            identity: self.identity@,
            sender: self.sender@,
            recipient: self.recipient@,
            text: self.text@,
            outcome: self.outcome,
        }
    }
}

impl SmtpMessage {
    /// The message for a contact-form submission: from its email address,
    /// with its subject and content; the recipient is left to the caller.
    pub fn from(http_message: HttpMessage) -> (r: SmtpMessage)
        ensures
            r.to is None,
            r.from == Some(http_message.email),
            r.subject == Some(http_message.subject),
            r.content == Some(http_message.content),
    {
        SmtpMessage {
            to: None,
            from: Some(http_message.email),
            subject: Some(http_message.subject),
            content: Some(http_message.content),
        }
    }

    /// The same message addressed to `to`.
    pub fn with_recipient(self, to: Vec<u8>) -> (r: SmtpMessage)
        ensures
            r.to == Some(to),
            r.from == self.from,
            r.subject == self.subject,
            r.content == self.content,
    {
        SmtpMessage { to: Some(to), ..self }
    }
}

impl SmtpSession {
    /// A session over a freshly opened connection, announcing itself as
    /// `identity`. Its first task is to read the greeting: hand the reply to
    /// [`SmtpSession::step`]. A message without sender or recipient is
    /// refused with `IncompleteMessage`.
    pub fn new(identity: Vec<u8>, method: AuthenticationMethod, message: SmtpMessage) -> (r: Result<SmtpSession, SmtpError>)
        ensures
            match r {
                Ok(s) => {
                    &&& message.from is Some && message.to is Some
                    &&& s@ == (SessionView {
                        state: SessionState::Connected,
                        security: Security::PlainText,
                        method,
                        identity: identity@,
                        sender: or_empty(message.from),
                        recipient: or_empty(message.to),
                        text: message_text(or_empty(message.subject), or_empty(message.content)),
                        outcome: None,
                    })
                },
                Err(e) => {
                    &&& (message.from is None || message.to is None)
                    &&& e == SmtpError::IncompleteMessage
                },
            },
    {
        if message.from.is_none() || message.to.is_none() {
            return Err(SmtpError::IncompleteMessage);
        }
        let sender = bytes_or_empty(&message.from);
        let recipient = bytes_or_empty(&message.to);
        let subject = bytes_or_empty(&message.subject);
        let content = bytes_or_empty(&message.content);
        let head: [u8; 9] = [83, 117, 98, 106, 101, 99, 116, 58, 32];
        let blank: [u8; 4] = [13, 10, 13, 10];
        let end: [u8; 5] = [13, 10, 46, 13, 10];
        let mut text = concat3(&head, subject.as_slice(), &blank);
        let mut rest = concat3(content.as_slice(), &end, &[]);
        text.append(&mut rest);
        assert(text@ =~= message_text(subject@, content@));
        Ok(
            SmtpSession {
                state: SessionState::Connected,
                security: Security::PlainText,
                method,
                identity,
                sender,
                recipient,
                text,
                outcome: None,
            },
        )
    }

    /// The state reached so far.
    pub fn state(&self) -> (r: SessionState)
        ensures
            r == self@.state,
    {
        self.state
    }

    /// The transport the session runs over.
    pub fn security(&self) -> (r: Security)
        ensures
            r == self@.security,
    {
        self.security
    }

    /// How the session ended: `None` while it runs.
    pub fn into_outcome(self) -> (r: Option<Result<(), SmtpError>>)
        ensures
            r == self@.outcome,
    {
        self.outcome
    }

    /// The command that the current state sends, for states that send one.
    fn line_for(&self, state: SessionState) -> (r: Vec<u8>)
        ensures
            state == SessionState::GreetingOk || state == SessionState::TlsNegotiated ==> r@
                == ehlo_line(self.identity@),
            state == SessionState::TlsReady ==> r@ == starttls_line(),
            state == SessionState::EhloOk ==> r@ == mail_from_line(self.sender@),
            state == SessionState::SenderAccepted ==> r@ == rcpt_to_line(self.recipient@),
            state == SessionState::ReadyToSend ==> r@ == data_line(),
            state == SessionState::DataOpen ==> r@ == self.text@,
            state == SessionState::MessageSent ==> r@ == quit_line(),
    {
        match state {
            SessionState::GreetingOk | SessionState::TlsNegotiated => {
                let ehlo: [u8; 5] = [69, 72, 76, 79, 32];
                let crlf: [u8; 2] = [13, 10];
                let r = concat3(&ehlo, self.identity.as_slice(), &crlf);
                assert(r@ =~= ehlo_line(self.identity@));
                r
            },
            SessionState::TlsReady => {
                let line: [u8; 10] = [83, 84, 65, 82, 84, 84, 76, 83, 13, 10];
                assert(line@ =~= starttls_line());
                slice_to_vec(&line)
            },
            SessionState::EhloOk => {
                let mail: [u8; 11] = [77, 65, 73, 76, 32, 70, 82, 79, 77, 58, 60];
                let close: [u8; 3] = [62, 13, 10];
                let r = concat3(&mail, self.sender.as_slice(), &close);
                assert(r@ =~= mail_from_line(self.sender@));
                r
            },
            SessionState::SenderAccepted => {
                let rcpt: [u8; 9] = [82, 67, 80, 84, 32, 84, 79, 58, 60];
                let close: [u8; 3] = [62, 13, 10];
                let r = concat3(&rcpt, self.recipient.as_slice(), &close);
                assert(r@ =~= rcpt_to_line(self.recipient@));
                r
            },
            SessionState::ReadyToSend => {
                let line: [u8; 6] = [68, 65, 84, 65, 13, 10];
                assert(line@ =~= data_line());
                slice_to_vec(&line)
            },
            SessionState::DataOpen => slice_to_vec(self.text.as_slice()),
            SessionState::MessageSent => {
                let line: [u8; 6] = [81, 85, 73, 84, 13, 10];
                assert(line@ =~= quit_line());
                slice_to_vec(&line)
            },
            _ => Vec::new(),
        }
    }

    /// Ends the session with `e` and asks for the connection to be released.
    fn fail(&mut self, e: SmtpError) -> (r: SmtpAction)
        ensures
            (final(self)@, r@) == failed(old(self)@, e),
    {
        self.state = SessionState::Closed;
        self.outcome = Some(Err(e));
        SmtpAction::Close
    }

    /// Moves to `state` and sends the command that belongs to it.
    fn advance(&mut self, state: SessionState) -> (r: SmtpAction)
        requires
            state != SessionState::Connected,
            state != SessionState::Closed,
        ensures
            final(self)@ == (SessionView { state, ..old(self)@ }),
            state == SessionState::GreetingOk || state == SessionState::TlsNegotiated ==> r@
                == ActionView::Send(ehlo_line(old(self)@.identity)),
            state == SessionState::TlsReady ==> r@ == ActionView::Send(starttls_line()),
            state == SessionState::EhloOk ==> r@ == ActionView::Send(mail_from_line(old(self)@.sender)),
            state == SessionState::SenderAccepted ==> r@ == ActionView::Send(
                rcpt_to_line(old(self)@.recipient),
            ),
            state == SessionState::ReadyToSend ==> r@ == ActionView::Send(data_line()),
            state == SessionState::DataOpen ==> r@ == ActionView::Send(old(self)@.text),
            state == SessionState::MessageSent ==> r@ == ActionView::Send(quit_line()),
    {
        let line = self.line_for(state);
        self.state = state;
        SmtpAction::Send(line)
    }

    /// Handles the event that answered the last action and returns the next
    /// action.
    pub fn step(&mut self, event: SmtpEvent) -> (r: SmtpAction)
        ensures
            (final(self)@, r@) == transition(old(self)@, event),
    {
        match self.state {
            SessionState::Connected => match event {
                SmtpEvent::Reply(reply) => {
                    if reply.code == 220 {
                        self.advance(SessionState::GreetingOk)
                    } else {
                        self.fail(SmtpError::UnexpectedGreeting)
                    }
                },
                _ => self.fail(SmtpError::UnexpectedGreeting),
            },
            SessionState::GreetingOk => match event {
                SmtpEvent::Reply(reply) => {
                    if reply.code != 250 {
                        self.fail(SmtpError::HandshakeRejected(reply.code, reply.text))
                    } else if self.method == AuthenticationMethod::Tls && self.security
                        == Security::PlainText {
                        let line = self.line_for(SessionState::TlsReady);
                        self.state = SessionState::EhloOk;
                        SmtpAction::Send(line)
                    } else {
                        self.advance(SessionState::EhloOk)
                    }
                },
                _ => self.fail(SmtpError::IoFailure),
            },
            SessionState::EhloOk => {
                if self.method == AuthenticationMethod::Tls && self.security == Security::PlainText {
                    match event {
                        SmtpEvent::Reply(reply) => {
                            if reply.code == 220 {
                                self.state = SessionState::TlsReady;
                                SmtpAction::UpgradeTls
                            } else {
                                self.fail(SmtpError::TlsUpgradeFailed)
                            }
                        },
                        _ => self.fail(SmtpError::TlsUpgradeFailed),
                    }
                } else {
                    self.submit(event, 250, SmtpStep::MailFrom, SessionState::SenderAccepted)
                }
            },
            SessionState::TlsReady => match event {
                SmtpEvent::TlsEstablished => {
                    self.security = Security::TlsUpgraded;
                    self.advance(SessionState::TlsNegotiated)
                },
                _ => self.fail(SmtpError::TlsUpgradeFailed),
            },
            SessionState::TlsNegotiated => match event {
                SmtpEvent::Reply(reply) => {
                    if reply.code == 250 {
                        self.advance(SessionState::EhloOk)
                    } else {
                        self.fail(SmtpError::TlsUpgradeFailed)
                    }
                },
                _ => self.fail(SmtpError::TlsUpgradeFailed),
            },
            SessionState::SenderAccepted => self.submit(
                event,
                250,
                SmtpStep::RcptTo,
                SessionState::ReadyToSend,
            ),
            SessionState::ReadyToSend => self.submit(
                event,
                354,
                SmtpStep::Data,
                SessionState::DataOpen,
            ),
            SessionState::DataOpen => self.submit(
                event,
                250,
                SmtpStep::EndOfData,
                SessionState::MessageSent,
            ),
            SessionState::MessageSent => {
                self.state = SessionState::Closed;
                self.outcome = Some(Ok(()));
                SmtpAction::Close
            },
            SessionState::Closed => SmtpAction::Close,
        }
    }

    /// Handles the reply to a submission command.
    fn submit(&mut self, event: SmtpEvent, expected: u16, step: SmtpStep, next: SessionState) -> (r: SmtpAction)
        requires
            next == SessionState::SenderAccepted || next == SessionState::ReadyToSend || next
                == SessionState::DataOpen || next == SessionState::MessageSent,
        ensures
            (final(self)@, r@) == submission(
                old(self)@,
                event,
                expected,
                step,
                next,
                if next == SessionState::SenderAccepted {
                    rcpt_to_line(old(self)@.recipient)
                } else if next == SessionState::ReadyToSend {
                    data_line()
                } else if next == SessionState::DataOpen {
                    old(self)@.text
                } else {
                    quit_line()
                },
            ),
    {
        match event {
            SmtpEvent::Reply(reply) => {
                if reply.code == expected {
                    self.advance(next)
                } else {
                    self.fail(SmtpError::CommandRejected(step, reply.code, reply.text))
                }
            },
            _ => self.fail(SmtpError::IoFailure),
        }
    }
}

/// The states and actions that a session goes through when it handles
/// `events` in turn: the last state, and one action per event.
pub open spec fn run(s: SessionView, events: Seq<SmtpEvent>) -> (SessionView, Seq<ActionView>)
    decreases events.len(),
{
    if events.len() == 0 {
        (s, Seq::empty())
    } else {
        let (t, a) = transition(s, events[0]);
        let (u, rest) = run(t, events.drop_first());
        (u, seq![a] + rest)
    }
}

/// The events in which each reply arrives.
pub open spec fn reply_events(replies: Seq<SmtpReply>) -> Seq<SmtpEvent> {
    replies.map_values(|r: SmtpReply| SmtpEvent::Reply(r))
}

/// A session that has just connected.
pub open spec fn fresh(s: SessionView) -> bool {
    s.state == SessionState::Connected && s.security == Security::PlainText && s.outcome is None
}

/// A closed session stays closed and asks for nothing but the release of
/// the connection, whatever happens after.
pub proof fn lemma_closed_stays_closed(s: SessionView, events: Seq<SmtpEvent>)
    requires
        s.state == SessionState::Closed,
    ensures
        run(s, events).0 == s,
        run(s, events).1 == Seq::new(events.len(), |i: int| ActionView::Close),
    decreases events.len(),
{
    if events.len() > 0 {
        lemma_closed_stays_closed(s, events.drop_first());
        assert(run(s, events).1 =~= Seq::new(events.len(), |i: int| ActionView::Close));
    }
}

/// Without an upgrade, a peer that replies 220, 250, 250, 250, 354, 250 and
/// then anything to QUIT takes the session through `MessageSent` to
/// `Closed` with success, and the session sends exactly EHLO, one MAIL
/// FROM, one RCPT TO, one DATA, the message ending in its `.` line, and
/// QUIT.
pub proof fn lemma_plain_delivery(s: SessionView, replies: Seq<SmtpReply>)
    requires
        fresh(s),
        s.method == AuthenticationMethod::NoTls,
        replies.len() == 7,
        replies[0].code == 220,
        replies[1].code == 250,
        replies[2].code == 250,
        replies[3].code == 250,
        replies[4].code == 354,
        replies[5].code == 250,
    ensures
        run(s, reply_events(replies).take(6)).0.state == SessionState::MessageSent,
        run(s, reply_events(replies)).0.state == SessionState::Closed,
        run(s, reply_events(replies)).0.outcome == Some(Ok::<(), SmtpError>(())),
        run(s, reply_events(replies)).1 == seq![
            ActionView::Send(ehlo_line(s.identity)),
            ActionView::Send(mail_from_line(s.sender)),
            ActionView::Send(rcpt_to_line(s.recipient)),
            ActionView::Send(data_line()),
            ActionView::Send(s.text),
            ActionView::Send(quit_line()),
            ActionView::Close,
        ],
{
    let ev = reply_events(replies);
    assert(ev.take(6).drop_first().drop_first().drop_first().drop_first().drop_first().drop_first()
        =~= Seq::<SmtpEvent>::empty());
    assert(ev.drop_first().drop_first().drop_first().drop_first().drop_first().drop_first().drop_first()
        =~= Seq::<SmtpEvent>::empty());
    reveal_with_fuel(run, 8);
    assert(run(s, ev).1 =~= seq![
        ActionView::Send(ehlo_line(s.identity)),
        ActionView::Send(mail_from_line(s.sender)),
        ActionView::Send(rcpt_to_line(s.recipient)),
        ActionView::Send(data_line()),
        ActionView::Send(s.text),
        ActionView::Send(quit_line()),
        ActionView::Close,
    ]);
}

/// When STARTTLS is asked for and the peer refuses it (any code but 220
/// after 220 and 250), the session ends with `TlsUpgradeFailed` and closes
/// the connection, having sent nothing past STARTTLS.
pub proof fn lemma_starttls_refused(s: SessionView, replies: Seq<SmtpReply>)
    requires
        fresh(s),
        s.method == AuthenticationMethod::Tls,
        replies.len() == 3,
        replies[0].code == 220,
        replies[1].code == 250,
        replies[2].code != 220,
    ensures
        run(s, reply_events(replies)).0.state == SessionState::Closed,
        run(s, reply_events(replies)).0.outcome == Some(Err::<(), SmtpError>(SmtpError::TlsUpgradeFailed)),
        run(s, reply_events(replies)).1 == seq![
            ActionView::Send(ehlo_line(s.identity)),
            ActionView::Send(starttls_line()),
            ActionView::Close,
        ],
{
    let ev = reply_events(replies);
    assert(ev.drop_first().drop_first().drop_first() =~= Seq::<SmtpEvent>::empty());
    reveal_with_fuel(run, 4);
    assert(run(s, ev).1 =~= seq![
        ActionView::Send(ehlo_line(s.identity)),
        ActionView::Send(starttls_line()),
        ActionView::Close,
    ]);
}

/// A line without its terminator: `\r\n`, or a lone `\n`.
pub open spec fn strip_eol(line: Seq<u8>) -> Seq<u8> {
    if line.len() >= 2 && line[line.len() - 2] == 13 && line.last() == 10 {
        line.take(line.len() - 2)
    } else if line.len() >= 1 && line.last() == 10 {
        line.drop_last()
    } else {
        line
    }
}

/// A reply line: three digits, then a space (last line of the reply), a
/// hyphen (more lines follow) or nothing, then text. Yields the code,
/// whether the line is the last, and the text.
pub open spec fn reply_line(line: Seq<u8>) -> Option<(u16, bool, Seq<u8>)> {
    let b = strip_eol(line);
    if b.len() >= 3 && is_digit(b[0]) && is_digit(b[1]) && is_digit(b[2]) && (b.len() == 3 || b[3]
        == 32 || b[3] == 45) {
        Some(
            (
                ((b[0] - 48) * 100 + (b[1] - 48) * 10 + (b[2] - 48)) as u16,
                !(b.len() > 3 && b[3] == 45),
                if b.len() > 3 {
                    b.skip(4)
                } else {
                    Seq::empty()
                },
            ),
        )
    } else {
        None
    }
}

/// One parsed line of a server reply.
#[derive(Debug, Clone, PartialEq, Eq)]
pub struct ReplyLine {
    pub code: u16,
    /// False when further lines of the same reply follow.
    pub last: bool,
    pub text: Vec<u8>,
}

/// Parses one line of a server reply; `None` when it does not start with a
/// three-digit status code followed by a space, a hyphen or nothing.
pub fn parse_reply_line(line: &[u8]) -> (r: Option<ReplyLine>)
    ensures
        match r {
            Some(l) => reply_line(line@) == Some((l.code, l.last, l.text@)),
            None => reply_line(line@) is None,
        },
{
    let n = line.len();
    let end: usize = if n >= 2 && line[n - 2] == 13 && line[n - 1] == 10 {
        n - 2
    } else if n >= 1 && line[n - 1] == 10 {
        n - 1
    } else {
        n
    };
    let b = &line[0..end];
    assert(b@ =~= strip_eol(line@));
    if end < 3 {
        return None;
    }
    let (d0, d1, d2) = (b[0], b[1], b[2]);
    if d0 < 48 || d0 > 57 || d1 < 48 || d1 > 57 || d2 < 48 || d2 > 57 {
        return None;
    }
    if end > 3 && b[3] != 32 && b[3] != 45 {
        return None;
    }
    let code: u16 = (d0 - 48) as u16 * 100 + (d1 - 48) as u16 * 10 + (d2 - 48) as u16;
    let last = !(end > 3 && b[3] == 45);
    let text = if end > 3 {
        slice_to_vec(&b[4..end])
    } else {
        Vec::new()
    };
    assert(end > 3 ==> text@ =~= b@.skip(4));
    assert(end == 3 ==> text@ =~= Seq::<u8>::empty());
    Some(ReplyLine { code, last, text })
}

} // verus!
