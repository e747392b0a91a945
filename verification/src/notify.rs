use vstd::prelude::*;
use vstd::string::StringExecFns;
use crate::aggregate::FailureSet;
use crate::config::NotificationConfig;

verus! {

/// The fixed subject line of every alert.
pub open spec fn spec_subject() -> Seq<char> {
    "Miradors: Some monitored websites are not reachable!"@
}

pub fn subject_line() -> (s: String)
    ensures
        s@ == spec_subject(),
{
    "Miradors: Some monitored websites are not reachable!".to_owned()
}

/// The row separator between failing targets in the message body.
pub open spec fn spec_separator() -> Seq<char> {
    "<br/>"@
}

/// `parts` joined with `sep` between consecutive parts.
pub open spec fn join_with(parts: Seq<Seq<char>>, sep: Seq<char>) -> Seq<char>
    decreases parts.len(),
{
    if parts.len() == 0 {
        Seq::empty()
    } else if parts.len() == 1 {
        parts[0]
    } else {
        join_with(parts.drop_last(), sep) + sep + parts.last()
    }
}

/// The alert body: the failing targets, in recorded order, joined by the
/// row separator. The error descriptions are deliberately not included —
/// the message only lists which targets are down.
pub fn build_body(failures: &FailureSet) -> (body: String)
    ensures
        body@ == join_with(failures.key_seq(), spec_separator()),
{
    let targets = failures.targets();
    let mut body = String::new();
    let mut i: usize = 0;
    while i < targets.len()
        invariant
            targets@.map_values(|t: String| t@) == failures.key_seq(),
            i <= targets@.len(),
            body@ == join_with(failures.key_seq().take(i as int), spec_separator()),
        decreases targets@.len() - i,
    {
        let ghost keys = failures.key_seq();
        if i > 0 {
            body.append("<br/>");
        }
        body.append(targets[i].as_str());
        proof {
            assert(keys.take(i + 1).drop_last() =~= keys.take(i as int));
            assert(keys.take(i + 1).last() == keys[i as int]);
            assert(targets@[i as int]@ == keys[i as int]);
            if i == 0 {
                assert(body@ =~= keys[0]);
                assert(join_with(keys.take(1), spec_separator()) == keys.take(1)[0]);
            }
        }
        i += 1;
    }
    proof {
        assert(failures.key_seq().take(targets@.len() as int) =~= failures.key_seq());
    }
    body
}

/// A composed alert, ready to send: the fixed subject, a body derived from
/// the failure set, exactly one recipient. Ephemeral: built only for an
/// unhealthy cycle, sent at most once.
pub struct Notification {
    pub subject: String,
    pub body: String,
    pub recipient: String,
}

/// Compose the single alert for an unhealthy cycle. Must only be called on
/// a non-empty failure set: a healthy cycle composes nothing.
pub fn compose_notification(failures: &FailureSet, cfg: &NotificationConfig) -> (n: Notification)
    requires
        failures.key_seq().len() > 0,
    ensures
        n.subject@ == spec_subject(),
        n.body@ == join_with(failures.key_seq(), spec_separator()),
        n.recipient@ == cfg.recipient_email@,
{
    Notification {
        subject: subject_line(),
        body: build_body(failures),
        recipient: cfg.recipient_email.clone(),
    }
}

/// A notification send that failed. Reported upward for this cycle only:
/// the next cycle proceeds normally and will try again if still unhealthy.
pub enum DispatchError {
    SendFailed { message: String },
}

impl DispatchError {
    pub open spec fn message_view(&self) -> Seq<char> {
        match self {
            DispatchError::SendFailed { message } => message@,
        }
    }
}

/// Relies on mailgun-rs's `Mailgun::send`: posts the message through the
/// provider's API (US region), authenticated by the API key, addressed from
/// the configured sender to the one recipient, one attempt, no retry.
/// Whether the provider accepts it depends on the network and the provider,
/// so nothing is promised of the outcome; a failure is handed back as its
/// error text.
#[verifier::external_body]
fn send_via_mailgun(cfg: &NotificationConfig, notification: &Notification) -> Result<(), String> {
    let message = mailgun_rs::Message::builder()
        .to(vec![mailgun_rs::EmailAddress::address(&notification.recipient)])
        .subject(notification.subject.clone())
        .html(notification.body.clone())
        .build();
    let client = mailgun_rs::Mailgun {
        api_key: cfg.api_key.clone(),
        domain: cfg.domain.clone(),
    };
    let sender = mailgun_rs::EmailAddress::name_address(&cfg.sender_displayed_name, &cfg.sender_email);
    match client.send(mailgun_rs::MailgunRegion::US, &sender, message, None) {
        Ok(_) => Ok(()),
        Err(err) => Err(err.to_string()),
    }
}

/// Interpret the provider's answer to the one send attempt: success passes
/// through, and a failed send is reported upward as a `DispatchError`
/// carrying the provider's error text verbatim.
pub fn interpret_send_outcome(outcome: Result<(), String>) -> (r: Result<(), DispatchError>)
    ensures
        outcome is Ok ==> r is Ok,
        outcome matches Err(m) ==> r == Err::<(), DispatchError>(
            DispatchError::SendFailed { message: m },
        ),
{
    match outcome {
        Ok(()) => Ok(()),
        Err(message) => Err(DispatchError::SendFailed { message }),
    }
}

/// Send exactly one alert for an unhealthy cycle: compose the notification
/// from the failure set and hand it to the provider once. Whether the
/// provider accepts it is outside this library's control; a failure comes
/// back through `interpret_send_outcome`.
pub fn dispatch(failures: &FailureSet, cfg: &NotificationConfig) -> (r: Result<(), DispatchError>)
    requires
        failures.key_seq().len() > 0,
{
    crate::check::install_crypto_provider();
    let notification = compose_notification(failures, cfg);
    interpret_send_outcome(send_via_mailgun(cfg, &notification))
}

} // verus!
