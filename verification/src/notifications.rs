//! Telling someone that the daemon failed.
//!
//! Sending a mail is not done here. Here is what is sent and how, and what
//! the answer of the server means.

use crate::error::{AddFunctionName, AddMsg, Error};
use crate::redacted::RedactedString;
use vstd::prelude::*;

verus! {

/// Something that can send a message under a topic.
pub trait Notification {
    /// Sends `msg` under `topic`.
    fn send(&self, topic: &str, msg: &str) -> Result<(), Error>;
}

/// How the connection to the mail server is secured.
#[derive(Clone, Copy, Debug, PartialEq, Eq, Structural)]
pub enum SmtpMode {
    /// Not at all.
    Unsecured,
    /// By TLS from the start.
    Ssl,
    /// In plain text first, then by TLS.
    StartTls,
}

/// The settings for mail over SMTP.
#[derive(Clone)]
pub struct SmtpNotificationConfig {
    /// The server.
    pub host: String,
    /// How the connection is secured.
    pub smtp_mode: SmtpMode,
    /// The sender.
    pub from: String,
    /// The receivers, one at least.
    pub to: Vec<String>,
    /// The name to log in with.
    pub username: String,
    /// The password to log in with.
    pub password: RedactedString,
}

/// A configured way of telling.
#[derive(Clone)]
pub enum NotificationConfig {
    /// Mail over SMTP.
    Smtp(SmtpNotificationConfig),
}

/// A mail to send: who sends it to whom, what it says, and over which
/// connection it goes.
pub struct Mail {
    /// The sender.
    pub from: String,
    /// The receivers.
    pub to: Vec<String>,
    /// The subject line.
    pub subject: String,
    /// The text, sent as plain text.
    pub body: String,
    /// The server.
    pub host: String,
    /// How the connection is secured.
    pub smtp_mode: SmtpMode,
    /// The name to log in with.
    pub username: String,
}

/// What happened when a mail was to be sent.
pub enum SendEvent {
    /// The message could not be put together, for the reason given.
    MessageNotBuilt(String),
    /// The client for the server could not be made, for the reason given.
    ClientNotBuilt(String),
    /// The message could not be handed to the server, for the reason given.
    NotSent(String),
    /// The server answered: whether its answer was positive, and the lines
    /// of the answer.
    Answered { positive: bool, messages: Vec<String> },
}

/// Whether each of `errors` is a refusal of the server with the text at
/// the same place of `messages`.
pub open spec fn refusals(errors: Seq<Error>, messages: Seq<String>) -> bool {
    &&& errors.len() == messages.len()
    &&& forall|i: int|
        0 <= i < errors.len() ==> *(#[trigger] errors[i]).inner is SmtpSendError
            && errors[i].inner.plain_text() == Some(messages[i]@)
}

/// Whether `res` is what an answer of the server means: a positive answer
/// is success; any other is the list of its lines as errors, or one error
/// without text where it has no line. The list is never empty.
pub open spec fn answer_means(positive: bool, messages: Seq<String>, res: Result<(), Error>) -> bool {
    &&& res.is_ok() == positive
    &&& res matches Err(e) ==> e.is_list() && e.well_formed() && if messages.len() == 0 {
        e.parts().len() == 1 && *e.parts()[0].inner is SmtpSendError
            && e.parts()[0].inner.plain_text() == Some(Seq::<char>::empty())
    } else {
        refusals(e.parts(), messages)
    }
}

/// What the answer of the server means: a positive answer is success; any
/// other is the list of its lines as errors, or one error without text
/// where it has no line.
pub fn send_outcome(positive: bool, messages: &Vec<String>) -> (res: Result<(), Error>)
    ensures
        answer_means(positive, messages@, res),
{
    if positive {
        return Ok(());
    }
    let mut errors: Vec<Error> = Vec::new();
    let mut i: usize = 0;
    while i < messages.len()
        invariant
            i <= messages@.len(),
            refusals(errors@, messages@.subrange(0, i as int)),
        decreases messages.len() - i,
    {
        let ghost before = errors@;
        errors.push(Error::smtp_send_error(messages[i].as_str()));
        assert forall|j: int| 0 <= j < errors@.len() implies *(#[trigger] errors@[j]).inner is SmtpSendError
            && errors@[j].inner.plain_text() == Some(messages@.subrange(0, i + 1)[j]@) by {
            if j < i {
                assert(errors@[j] == before[j]);
                assert(messages@.subrange(0, i as int)[j] == messages@[j]);
            }
        }
        i += 1;
    }
    assert(messages@.subrange(0, messages@.len() as int) =~= messages@);
    if errors.len() == 0 {
        let only: Error = Error::smtp_send_error("");
        proof {
            reveal_strlit("");
            assert(""@ =~= Seq::<char>::empty());
        }
        errors.push(only);
    }
    proof {
        Error::lemma_all_well_formed(errors@);
    }
    Err(Error::lots_of_error(errors))
}

/// Whether `res` is the result of sending, given what happened. A
/// failure before the server answered is an error with the reason given,
/// under the name of the sending function; for the two that concern
/// building, under a message as well. An answer means what `answer_means`
/// says.
pub open spec fn send_means(event: SendEvent, res: Result<(), Error>) -> bool {
    match event {
        SendEvent::MessageNotBuilt(reason) => res matches Err(e) && (exists|
            mid: Error,
            inner: Error,
        |
            #[trigger] e.is_with_fn_name("send"@, mid) && #[trigger] mid.is_with_msg(
                "Fail to build notification email"@,
                inner,
            ) && *inner.inner is SmtpSendError && inner.inner.plain_text() == Some(reason@)),
        SendEvent::ClientNotBuilt(reason) => res matches Err(e) && (exists|
            mid: Error,
            inner: Error,
        |
            #[trigger] e.is_with_fn_name("send"@, mid) && #[trigger] mid.is_with_msg(
                "Failed to build smtp client"@,
                inner,
            ) && *inner.inner is SmtpSendError && inner.inner.plain_text() == Some(reason@)),
        SendEvent::NotSent(reason) => res matches Err(e) && (exists|inner: Error|
            #[trigger] e.is_with_fn_name("send"@, inner) && *inner.inner is SmtpSendError
                && inner.inner.plain_text() == Some(reason@)),
        SendEvent::Answered { positive, messages } => answer_means(positive, messages@, res),
    }
}

impl SmtpNotificationConfig {
    /// Whether there is a receiver.
    pub open spec fn valid(self) -> bool {
        self.to@.len() >= 1
    }

    /// `Ok` where there is a receiver, else a validation error.
    pub fn validate(&self) -> (res: Result<(), Error>)
        ensures
            res.is_ok() == self.valid(),
            res matches Err(e) ==> *e.inner is ValidationError,
    {
        if self.to.len() >= 1 {
            Ok(())
        } else {
            Err(Error::validation_error("to must hold at least one address"))
        }
    }

    /// The mail that tells `msg` under `topic`: from the configured sender
    /// to every configured receiver, with the topic as its subject and the
    /// message as its text, over the configured server and connection.
    pub fn mail(&self, topic: &str, msg: &str) -> (mail: Mail)
        ensures
            mail.from@ == self.from@,
            mail.to@.len() == self.to@.len(),
            forall|i: int| 0 <= i < mail.to@.len() ==> (#[trigger] mail.to@[i])@ == self.to@[i]@,
            mail.subject@ == topic@,
            mail.body@ == msg@,
            mail.host@ == self.host@,
            mail.smtp_mode == self.smtp_mode,
            mail.username@ == self.username@,
    {
        let mut to: Vec<String> = Vec::new();
        let mut i: usize = 0;
        while i < self.to.len()
            invariant
                i <= self.to@.len(),
                to@.len() == i,
                forall|j: int| 0 <= j < i ==> (#[trigger] to@[j])@ == self.to@[j]@,
            decreases self.to.len() - i,
        {
            to.push(self.to[i].clone());
            i += 1;
        }
        Mail {
            from: self.from.clone(),
            to,
            subject: topic.to_owned(),
            body: msg.to_owned(),
            host: self.host.clone(),
            smtp_mode: self.smtp_mode,
            username: self.username.clone(),
        }
    }

    /// The result of sending, from what happened. A failure before the
    /// server answered is an error with the reason given, under the name of
    /// the sending function; for the two that concern building, under a
    /// message as well. An answer means what `send_outcome` says.
    pub fn send(&self, event: SendEvent) -> (res: Result<(), Error>)
        ensures
            send_means(event, res),
    {
        match event {
            SendEvent::MessageNotBuilt(reason) => {
                let inner: Error = Error::smtp_send_error(reason.as_str());
                let mid: Error = inner.add_msg("Fail to build notification email");
                let e: Error = mid.add_fn_name("send");
                assert(e.is_with_fn_name("send"@, mid) && mid.is_with_msg(
                    "Fail to build notification email"@,
                    inner,
                ));
                Err(e)
            },
            SendEvent::ClientNotBuilt(reason) => {
                let inner: Error = Error::smtp_send_error(reason.as_str());
                let mid: Error = inner.add_msg("Failed to build smtp client");
                let e: Error = mid.add_fn_name("send");
                assert(e.is_with_fn_name("send"@, mid) && mid.is_with_msg(
                    "Failed to build smtp client"@,
                    inner,
                ));
                Err(e)
            },
            SendEvent::NotSent(reason) => {
                let inner: Error = Error::smtp_send_error(reason.as_str());
                let e: Error = inner.add_fn_name("send");
                assert(e.is_with_fn_name("send"@, inner));
                Err(e)
            },
            SendEvent::Answered { positive, messages } => send_outcome(positive, &messages),
        }
    }
}

impl NotificationConfig {
    /// `Ok` for valid settings, else a validation error.
    pub fn validate(&self) -> (res: Result<(), Error>)
        ensures
            res.is_ok() == match *self {
                NotificationConfig::Smtp(inner) => inner.valid(),
            },
            res matches Err(e) ==> *e.inner is ValidationError,
    {
        match self {
            NotificationConfig::Smtp(inner) => inner.validate(),
        }
    }

    /// The result of sending, from what happened.
    pub fn send(&self, event: SendEvent) -> (res: Result<(), Error>)
        ensures
            send_means(event, res),
    {
        match self {
            NotificationConfig::Smtp(inner) => inner.send(event),
        }
    }
}

} // verus!
