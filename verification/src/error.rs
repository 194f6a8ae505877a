//! What can go wrong while a sidecar is configured, bound and updated.

use crate::identity::ALLOW_NON_LOOPBACK;
use crate::text::append_text;
use vstd::prelude::*;

verus! {

#[derive(Clone, Debug, PartialEq, Eq)]
pub enum SidecarError {
    InvalidBind { value: String },
    UnresolvedBind { value: String },
    NonLoopbackBind { value: String },
    InvalidConfig { reason: &'static str },
    MissingSidecar { service: String },
    RuntimeUpdateRejected { key: String },
    RuntimeStateUnavailable,
    Io { message: String },
}

/// What a [`SidecarError`] says.
pub enum Fault {
    InvalidBind(Seq<char>),
    UnresolvedBind(Seq<char>),
    NonLoopbackBind(Seq<char>),
    InvalidConfig(Seq<char>),
    MissingSidecar(Seq<char>),
    RuntimeUpdateRejected(Seq<char>),
    RuntimeStateUnavailable,
    Io(Seq<char>),
}

impl View for SidecarError {
    type V = Fault;

    open spec fn view(&self) -> Fault {
        match self {
            SidecarError::InvalidBind { value } => Fault::InvalidBind(value@),
            SidecarError::UnresolvedBind { value } => Fault::UnresolvedBind(value@),
            SidecarError::NonLoopbackBind { value } => Fault::NonLoopbackBind(value@),
            SidecarError::InvalidConfig { reason } => Fault::InvalidConfig(reason@),
            SidecarError::MissingSidecar { service } => Fault::MissingSidecar(service@),
            SidecarError::RuntimeUpdateRejected { key } => Fault::RuntimeUpdateRejected(key@),
            SidecarError::RuntimeStateUnavailable => Fault::RuntimeStateUnavailable,
            SidecarError::Io { message } => Fault::Io(message@),
        }
    }
}

/// `result` fails exactly where there is a fault, and says which.
pub open spec fn reports<T>(result: Result<T, SidecarError>, fault: Option<Fault>) -> bool {
    match result {
        Ok(_) => fault is None,
        Err(error) => fault == Some(error@),
    }
}

/// The text that std's `Debug` gives for a string slice: in quotation marks, with
/// escapes for what cannot be shown.
pub uninterp spec fn quoted(value: Seq<char>) -> Seq<char>;

/// Formats through `<str as std::fmt::Debug>::fmt`. The text depends on `value` alone;
/// which characters are escaped, and how, is left to std and not stated here.
#[verifier::external_body]
fn quote(value: &str) -> (text: String)
    ensures
        text@ == quoted(value@),
{
    format!("{value:?}")
}

impl Fault {
    /// The text that the fault is about.
    pub open spec fn subject(self) -> Seq<char> {
        match self {
            Fault::InvalidBind(text) => text,
            Fault::UnresolvedBind(text) => text,
            Fault::NonLoopbackBind(text) => text,
            Fault::InvalidConfig(text) => text,
            Fault::MissingSidecar(text) => text,
            Fault::RuntimeUpdateRejected(text) => text,
            Fault::RuntimeStateUnavailable => Seq::empty(),
            Fault::Io(text) => text,
        }
    }

    /// The message that reports the fault, where a value that it quotes reads `shown`.
    pub open spec fn message_showing(self, shown: Seq<char>) -> Seq<char> {
        match self {
            Fault::InvalidBind(_) => "invalid bind address "@ + shown,
            Fault::UnresolvedBind(_) => "bind address "@ + shown + " did not resolve"@,
            Fault::NonLoopbackBind(_) => "refusing non-loopback bind "@ + shown + "; set "@
                + ALLOW_NON_LOOPBACK@ + "=1 to override"@,
            Fault::InvalidConfig(reason) => "invalid sidecar config: "@ + reason,
            Fault::MissingSidecar(_) => "no sidecar is configured for "@ + shown,
            Fault::RuntimeUpdateRejected(_) => "runtime update rejected for "@ + shown,
            Fault::RuntimeStateUnavailable => "runtime state is unavailable"@,
            Fault::Io(message) => message,
        }
    }

    /// The message that reports the fault.
    pub open spec fn message(self) -> Seq<char> {
        self.message_showing(quoted(self.subject()))
    }
}

impl SidecarError {
    /// The text that the error is about.
    fn subject(&self) -> (text: &str)
        ensures
            text@ == self@.subject(),
    {
        proof {
            reveal_strlit("");
            assert(""@ =~= Seq::<char>::empty());
        }
        match self {
            SidecarError::InvalidBind { value } => value.as_str(),
            SidecarError::UnresolvedBind { value } => value.as_str(),
            SidecarError::NonLoopbackBind { value } => value.as_str(),
            SidecarError::InvalidConfig { reason } => reason,
            SidecarError::MissingSidecar { service } => service.as_str(),
            SidecarError::RuntimeUpdateRejected { key } => key.as_str(),
            SidecarError::RuntimeStateUnavailable => "",
            SidecarError::Io { message } => message.as_str(),
        }
    }

    /// The message that reports the error, where a value that it quotes reads `shown`.
    pub fn message_showing(&self, shown: &str) -> (text: String)
        ensures
            text@ == self@.message_showing(shown@),
    {
        match self {
            SidecarError::InvalidBind { .. } => append_text(
                "invalid bind address ".to_owned(),
                shown,
            ),
            SidecarError::UnresolvedBind { .. } => {
                let text = append_text("bind address ".to_owned(), shown);
                append_text(text, " did not resolve")
            },
            SidecarError::NonLoopbackBind { .. } => {
                let text = append_text("refusing non-loopback bind ".to_owned(), shown);
                let text = append_text(text, "; set ");
                let text = append_text(text, ALLOW_NON_LOOPBACK);
                append_text(text, "=1 to override")
            },
            SidecarError::InvalidConfig { reason } => append_text(
                "invalid sidecar config: ".to_owned(),
                reason,
            ),
            SidecarError::MissingSidecar { .. } => append_text(
                "no sidecar is configured for ".to_owned(),
                shown,
            ),
            SidecarError::RuntimeUpdateRejected { .. } => append_text(
                "runtime update rejected for ".to_owned(),
                shown,
            ),
            SidecarError::RuntimeStateUnavailable => "runtime state is unavailable".to_owned(),
            SidecarError::Io { message } => message.clone(),
        }
    }

    /// The message that reports the error.
    pub fn message(&self) -> (text: String)
        ensures
            text@ == self@.message(),
    {
        self.message_showing(quote(self.subject()).as_str())
    }
}

/// Each message says what went wrong and shows the value that it is about, quoted; a reason and
/// an outside message are shown as they are.
pub proof fn law_what_messages_say(text: Seq<char>, shown: Seq<char>)
    ensures
        Fault::InvalidBind(text).message_showing(shown) == "invalid bind address "@ + shown,
        Fault::UnresolvedBind(text).message_showing(shown) == "bind address "@ + shown
            + " did not resolve"@,
        Fault::NonLoopbackBind(text).message_showing(shown) == "refusing non-loopback bind "@
            + shown + "; set ORES_OTEL_SIDECAR_ALLOW_NON_LOOPBACK=1 to override"@,
        Fault::MissingSidecar(text).message_showing(shown) == "no sidecar is configured for "@
            + shown,
        Fault::RuntimeUpdateRejected(text).message_showing(shown)
            == "runtime update rejected for "@ + shown,
        Fault::InvalidConfig(text).message_showing(shown) == "invalid sidecar config: "@ + text,
        Fault::RuntimeStateUnavailable.message_showing(shown) == "runtime state is unavailable"@,
        Fault::Io(text).message_showing(shown) == text,
        Fault::InvalidBind(text).message() == "invalid bind address "@ + quoted(text),
        Fault::UnresolvedBind(text).message() == "bind address "@ + quoted(text)
            + " did not resolve"@,
        Fault::MissingSidecar(text).message() == "no sidecar is configured for "@ + quoted(text),
        Fault::RuntimeUpdateRejected(text).message() == "runtime update rejected for "@ + quoted(
            text,
        ),
        Fault::NonLoopbackBind(text).message() == Fault::NonLoopbackBind(text).message_showing(
            quoted(text),
        ),
{
    reveal_strlit("; set ");
    reveal_strlit("ORES_OTEL_SIDECAR_ALLOW_NON_LOOPBACK");
    reveal_strlit("=1 to override");
    reveal_strlit("; set ORES_OTEL_SIDECAR_ALLOW_NON_LOOPBACK=1 to override");
    assert("; set "@ + ALLOW_NON_LOOPBACK@ + "=1 to override"@
        =~= "; set ORES_OTEL_SIDECAR_ALLOW_NON_LOOPBACK=1 to override"@);
    assert(Fault::NonLoopbackBind(text).message_showing(shown) =~= "refusing non-loopback bind "@
        + shown + "; set ORES_OTEL_SIDECAR_ALLOW_NON_LOOPBACK=1 to override"@);
}

/// What reports a fault succeeds exactly where there is none, and otherwise names it.
pub proof fn law_faults_are_reported<T>(
    result: Result<T, SidecarError>,
    fault: Option<Fault>,
)
    requires
        reports(result, fault),
    ensures
        result is Ok <==> fault is None,
        result matches Err(error) ==> fault == Some(error@),
{
}

/// An error is the fault of its own name, about the text or for the reason that it holds.
pub proof fn law_which_faults_errors_are(text: String, reason: &'static str)
    ensures
        (SidecarError::InvalidBind { value: text })@ == Fault::InvalidBind(text@),
        (SidecarError::UnresolvedBind { value: text })@ == Fault::UnresolvedBind(text@),
        (SidecarError::NonLoopbackBind { value: text })@ == Fault::NonLoopbackBind(text@),
        (SidecarError::MissingSidecar { service: text })@ == Fault::MissingSidecar(text@),
        (SidecarError::RuntimeUpdateRejected { key: text })@ == Fault::RuntimeUpdateRejected(
            text@,
        ),
        (SidecarError::InvalidConfig { reason })@ == Fault::InvalidConfig(reason@),
{
}

} // verus!
