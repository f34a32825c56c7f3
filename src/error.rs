//! Failures of the request pipeline and of the mail session.

use vstd::prelude::*;

verus! {

/// The fields that a contact form must carry.
#[derive(Debug, Clone, Copy, PartialEq, Eq, Structural)]
pub enum FormField {
    Email,
    Surname,
    LastName,
    Subject,
    Content,
}

/// Why an inbound request could not be framed or parsed.
#[derive(Debug, Clone, Copy, PartialEq, Eq, Structural)]
pub enum Error {
    /// The header grew past the configured size without a delimiter.
    HeaderTooLarge,
    /// The stream ended, or a read failed, before the header delimiter.
    TruncatedRequest,
    /// Header or body bytes are not valid UTF-8.
    Encoding,
    /// The start line has fewer than three tokens.
    MalformedStartLine,
    /// A header line without `": "`, or a form pair without `=`.
    MalformedField,
    /// The header has no `Content-Length` field.
    MissingLength,
    /// The `Content-Length` value is not a decimal number that fits.
    InvalidLength,
    /// The stream ended, or a read failed, before the declared body length.
    TruncatedBody,
    /// The form lacks a required field.
    MissingField(FormField),
}

/// The command whose reply was refused during submission.
#[derive(Debug, Clone, Copy, PartialEq, Eq, Structural)]
pub enum SmtpStep {
    MailFrom,
    RcptTo,
    Data,
    EndOfData,
}

/// Why a mail session ended without delivering the message.
#[derive(Debug, Clone, PartialEq, Eq)]
pub enum SmtpError {
    /// The relay could not be reached.
    ConnectFailed,
    /// The greeting was missing or did not carry code 220.
    UnexpectedGreeting,
    /// EHLO was answered with a code other than 250: code and text.
    HandshakeRejected(u16, Vec<u8>),
    /// STARTTLS, the upgrade itself, or the EHLO after it failed.
    TlsUpgradeFailed,
    /// A submission command got an unexpected reply: step, code and text.
    CommandRejected(SmtpStep, u16, Vec<u8>),
    /// The connection failed during submission.
    IoFailure,
    /// The message has no sender or no recipient.
    IncompleteMessage,
}

} // verus!
