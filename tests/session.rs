use contact_relay::error::{SmtpError, SmtpStep};
use contact_relay::form::HttpMessage;
use contact_relay::smtp::{
    parse_reply_line, AuthenticationMethod, ReplyLine, SessionState, Security, SmtpAction,
    SmtpEvent, SmtpMessage, SmtpReply, SmtpSession,
};

fn message() -> SmtpMessage {
    SmtpMessage::from(HttpMessage {
        email: b"a@b.com".to_vec(),
        surname: b"A".to_vec(),
        last_name: b"B".to_vec(),
        subject: b"Hi".to_vec(),
        content: b"Hey".to_vec(),
    })
    .with_recipient(b"desk@example.org".to_vec())
}

fn reply(code: u16) -> SmtpEvent {
    SmtpEvent::Reply(SmtpReply { code, text: b"text".to_vec() })
}

fn send(bytes: &[u8]) -> SmtpAction {
    SmtpAction::Send(bytes.to_vec())
}

fn session(method: AuthenticationMethod) -> SmtpSession {
    SmtpSession::new(b"client.local".to_vec(), method, message()).unwrap()
}

#[test]
fn plain_delivery() {
    let mut s = session(AuthenticationMethod::NoTls);
    assert_eq!(s.state(), SessionState::Connected);
    assert_eq!(s.step(reply(220)), send(b"EHLO client.local\r\n"));
    assert_eq!(s.step(reply(250)), send(b"MAIL FROM:<a@b.com>\r\n"));
    assert_eq!(s.step(reply(250)), send(b"RCPT TO:<desk@example.org>\r\n"));
    assert_eq!(s.step(reply(250)), send(b"DATA\r\n"));
    assert_eq!(s.step(reply(354)), send(b"Subject: Hi\r\n\r\nHey\r\n.\r\n"));
    assert_eq!(s.step(reply(250)), send(b"QUIT\r\n"));
    assert_eq!(s.state(), SessionState::MessageSent);
    assert_eq!(s.step(reply(221)), SmtpAction::Close);
    assert_eq!(s.state(), SessionState::Closed);
    assert_eq!(s.security(), Security::PlainText);
    assert_eq!(s.into_outcome(), Some(Ok(())));
}

#[test]
fn quit_reply_is_best_effort() {
    let mut s = session(AuthenticationMethod::NoTls);
    for code in [220, 250, 250, 250, 354, 250] {
        s.step(reply(code));
    }
    assert_eq!(s.step(SmtpEvent::ConnectionLost), SmtpAction::Close);
    assert_eq!(s.into_outcome(), Some(Ok(())));
}

#[test]
fn starttls_refused() {
    let mut s = session(AuthenticationMethod::Tls);
    assert_eq!(s.step(reply(220)), send(b"EHLO client.local\r\n"));
    assert_eq!(s.step(reply(250)), send(b"STARTTLS\r\n"));
    assert_eq!(s.step(reply(421)), SmtpAction::Close);
    assert_eq!(s.state(), SessionState::Closed);
    assert_eq!(s.step(reply(250)), SmtpAction::Close);
    assert_eq!(s.into_outcome(), Some(Err(SmtpError::TlsUpgradeFailed)));
}

#[test]
fn tls_delivery() {
    let mut s = session(AuthenticationMethod::Tls);
    assert_eq!(s.step(reply(220)), send(b"EHLO client.local\r\n"));
    assert_eq!(s.step(reply(250)), send(b"STARTTLS\r\n"));
    assert_eq!(s.step(reply(220)), SmtpAction::UpgradeTls);
    assert_eq!(s.state(), SessionState::TlsReady);
    assert_eq!(s.step(SmtpEvent::TlsEstablished), send(b"EHLO client.local\r\n"));
    assert_eq!(s.state(), SessionState::TlsNegotiated);
    assert_eq!(s.security(), Security::TlsUpgraded);
    assert_eq!(s.step(reply(250)), send(b"MAIL FROM:<a@b.com>\r\n"));
    assert_eq!(s.step(reply(250)), send(b"RCPT TO:<desk@example.org>\r\n"));
    assert_eq!(s.step(reply(250)), send(b"DATA\r\n"));
    assert_eq!(s.step(reply(354)), send(b"Subject: Hi\r\n\r\nHey\r\n.\r\n"));
    assert_eq!(s.step(reply(250)), send(b"QUIT\r\n"));
    assert_eq!(s.step(reply(221)), SmtpAction::Close);
    assert_eq!(s.into_outcome(), Some(Ok(())));
}

#[test]
fn tls_upgrade_failures() {
    let mut s = session(AuthenticationMethod::Tls);
    s.step(reply(220));
    s.step(reply(250));
    s.step(reply(220));
    assert_eq!(s.step(SmtpEvent::TlsFailed), SmtpAction::Close);
    assert_eq!(s.into_outcome(), Some(Err(SmtpError::TlsUpgradeFailed)));

    let mut s = session(AuthenticationMethod::Tls);
    s.step(reply(220));
    s.step(reply(250));
    s.step(reply(220));
    s.step(SmtpEvent::TlsEstablished);
    assert_eq!(s.step(reply(554)), SmtpAction::Close);
    assert_eq!(s.into_outcome(), Some(Err(SmtpError::TlsUpgradeFailed)));
}

#[test]
fn greeting_must_be_220() {
    let mut s = session(AuthenticationMethod::NoTls);
    assert_eq!(s.step(reply(554)), SmtpAction::Close);
    assert_eq!(s.into_outcome(), Some(Err(SmtpError::UnexpectedGreeting)));
    let mut s = session(AuthenticationMethod::NoTls);
    assert_eq!(s.step(SmtpEvent::ConnectionLost), SmtpAction::Close);
    assert_eq!(s.into_outcome(), Some(Err(SmtpError::UnexpectedGreeting)));
}

#[test]
fn ehlo_rejected() {
    let mut s = session(AuthenticationMethod::NoTls);
    s.step(reply(220));
    let refused = SmtpEvent::Reply(SmtpReply { code: 502, text: b"no".to_vec() });
    assert_eq!(s.step(refused), SmtpAction::Close);
    assert_eq!(s.into_outcome(), Some(Err(SmtpError::HandshakeRejected(502, b"no".to_vec()))));
}

#[test]
fn submission_rejections() {
    let mut s = session(AuthenticationMethod::NoTls);
    s.step(reply(220));
    s.step(reply(250));
    let refused = SmtpEvent::Reply(SmtpReply { code: 550, text: b"denied".to_vec() });
    assert_eq!(s.step(refused), SmtpAction::Close);
    assert_eq!(
        s.into_outcome(),
        Some(Err(SmtpError::CommandRejected(SmtpStep::MailFrom, 550, b"denied".to_vec())))
    );

    let mut s = session(AuthenticationMethod::NoTls);
    for code in [220, 250, 250] {
        s.step(reply(code));
    }
    assert_eq!(s.step(reply(354)), SmtpAction::Close);
    assert_eq!(
        s.into_outcome(),
        Some(Err(SmtpError::CommandRejected(SmtpStep::RcptTo, 354, b"text".to_vec())))
    );

    let mut s = session(AuthenticationMethod::NoTls);
    for code in [220, 250, 250, 250] {
        s.step(reply(code));
    }
    assert_eq!(s.step(reply(250)), SmtpAction::Close);
    assert_eq!(
        s.into_outcome(),
        Some(Err(SmtpError::CommandRejected(SmtpStep::Data, 250, b"text".to_vec())))
    );

    let mut s = session(AuthenticationMethod::NoTls);
    for code in [220, 250, 250, 250, 354] {
        s.step(reply(code));
    }
    assert_eq!(s.step(reply(452)), SmtpAction::Close);
    assert_eq!(
        s.into_outcome(),
        Some(Err(SmtpError::CommandRejected(SmtpStep::EndOfData, 452, b"text".to_vec())))
    );
}

#[test]
fn connection_lost_during_submission() {
    let mut s = session(AuthenticationMethod::NoTls);
    for code in [220, 250, 250] {
        s.step(reply(code));
    }
    assert_eq!(s.step(SmtpEvent::ConnectionLost), SmtpAction::Close);
    assert_eq!(s.into_outcome(), Some(Err(SmtpError::IoFailure)));
}

#[test]
fn incomplete_message_refused() {
    let no_recipient = SmtpMessage::from(HttpMessage {
        email: b"a@b.com".to_vec(),
        surname: Vec::new(),
        last_name: Vec::new(),
        subject: Vec::new(),
        content: Vec::new(),
    });
    assert_eq!(no_recipient.to, None);
    assert_eq!(no_recipient.from, Some(b"a@b.com".to_vec()));
    assert!(matches!(
        SmtpSession::new(b"c".to_vec(), AuthenticationMethod::NoTls, no_recipient),
        Err(SmtpError::IncompleteMessage)
    ));
}

#[test]
fn smtp_message_from_contact() {
    let m = message();
    assert_eq!(m.to, Some(b"desk@example.org".to_vec()));
    assert_eq!(m.from, Some(b"a@b.com".to_vec()));
    assert_eq!(m.subject, Some(b"Hi".to_vec()));
    assert_eq!(m.content, Some(b"Hey".to_vec()));
}

#[test]
fn reply_lines() {
    assert_eq!(
        parse_reply_line(b"250 OK\r\n"),
        Some(ReplyLine { code: 250, last: true, text: b"OK".to_vec() })
    );
    assert_eq!(
        parse_reply_line(b"250-SIZE 1000\r\n"),
        Some(ReplyLine { code: 250, last: false, text: b"SIZE 1000".to_vec() })
    );
    assert_eq!(
        parse_reply_line(b"220\n"),
        Some(ReplyLine { code: 220, last: true, text: Vec::new() })
    );
    assert_eq!(parse_reply_line(b"2x0 hi\r\n"), None);
    assert_eq!(parse_reply_line(b"25\r\n"), None);
    assert_eq!(parse_reply_line(b"250xOK"), None);
}
