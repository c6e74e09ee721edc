//! Assembling the outgoing reply: the envelope as plain header values, and
//! its wire form built by the mail library for delivery or dry-run output.

use crate::addr::{clone_opt_string, parse_address, Identity};
use crate::errors::ReplyError;
use crate::inbound::ParsedMessage;
use vstd::prelude::*;
use vstd::string::StringExecFns;

verus! {

/// The outgoing reply: every header as a plain value, and the body text.
#[derive(Debug)]
pub struct OutgoingMessage {
    pub from: Identity,
    pub to: Identity,
    pub subject: String,
    pub in_reply_to: String,
    pub references: String,
    pub cc: Vec<Identity>,
    pub body: String,
}

impl OutgoingMessage {
    /// Every participant address of the envelope is valid.
    pub open spec fn wf(self) -> bool {
        self.from.wf() && self.to.wf() && forall|i: int|
            0 <= i < self.cc@.len() ==> (#[trigger] self.cc@[i]).wf()
    }
}

/// The reply subject: `Re: ` before the original subject, with no detection
/// of prefixes already present.
pub open spec fn reply_subject(subject: Seq<char>) -> Seq<char> {
    "Re: "@ + subject
}

/// The threading reference: the original message id in angle brackets.
pub open spec fn reply_reference(mid: Seq<char>) -> Seq<char> {
    "<"@ + mid + ">"@
}

/// Assembles the outgoing envelope: From is the operator, To the original
/// author, the subject gains `Re: `, In-Reply-To and References both carry
/// the original message id in angle brackets, Cc is the recipient set, and
/// the body is the draft.
pub fn assemble(
    selfid: &Identity,
    msg: &ParsedMessage,
    recipients: Vec<Identity>,
    draft: String,
) -> (r: OutgoingMessage)
    ensures
        r.from == *selfid,
        r.to == msg.author,
        r.subject@ == reply_subject(msg.subject@),
        r.in_reply_to@ == reply_reference(msg.message_id@),
        r.references@ == reply_reference(msg.message_id@),
        r.cc == recipients,
        r.body == draft,
{
    let mut subject = String::from_str("Re: ");
    subject.append(msg.subject.as_str());
    let mut mid = String::from_str("<");
    mid.append(msg.message_id.as_str());
    mid.append(">");
    let references = mid.clone();
    OutgoingMessage {
        from: selfid.clone(),
        to: msg.author.clone(),
        subject,
        in_reply_to: mid,
        references,
        cc: recipients,
        body: draft,
    }
}

#[verifier::external_type_specification]
#[verifier::external_body]
pub struct ExMailbox(lettre::message::Mailbox);

#[verifier::external_type_specification]
#[verifier::external_body]
pub struct ExMessageBuilder(lettre::message::MessageBuilder);

#[verifier::external_type_specification]
#[verifier::external_body]
pub struct ExLettreMessage(lettre::Message);

#[verifier::external_type_specification]
#[verifier::external_body]
pub struct ExEmailError(lettre::error::Error);

/// The first count of seconds since the epoch that the date-header formatter
/// refuses: the start of the year 10000.
pub const SEND_TIME_LIMIT_SECS: u64 = 253402300800;

/// How many sender mailboxes have been set on a builder.
pub uninterp spec fn builder_froms(b: lettre::message::MessageBuilder) -> int;

/// How many recipient mailboxes (To or Cc) have been set on a builder.
pub uninterp spec fn builder_recipients(b: lettre::message::MessageBuilder) -> int;

/// Relies on `lettre::message::Mailbox::new`.
#[verifier::external_body]
fn mailbox_new(name: Option<String>, email: lettre::Address) -> lettre::message::Mailbox {
    lettre::message::Mailbox::new(name, email)
}

/// Relies on `lettre::Message::builder`: a new builder holds no headers.
#[verifier::external_body]
fn builder_new() -> (r: lettre::message::MessageBuilder)
    ensures
        builder_froms(r) == 0,
        builder_recipients(r) == 0,
{
    lettre::Message::builder()
}

/// Relies on `lettre::message::MessageBuilder::date`, whose header formatter
/// panics for times at or after the year 10000, so the seconds are bounded;
/// the sender and recipient headers are untouched.
#[verifier::external_body]
fn builder_date_secs(b: lettre::message::MessageBuilder, secs: u64) -> (r:
    lettre::message::MessageBuilder)
    requires
        secs < SEND_TIME_LIMIT_SECS,
    ensures
        builder_froms(r) == builder_froms(b),
        builder_recipients(r) == builder_recipients(b),
{
    b.date(std::time::SystemTime::UNIX_EPOCH + std::time::Duration::from_secs(secs))
}

/// Relies on `lettre::message::MessageBuilder::from`: joins one mailbox into
/// the sender header.
#[verifier::external_body]
fn builder_from(b: lettre::message::MessageBuilder, mb: lettre::message::Mailbox) -> (r:
    lettre::message::MessageBuilder)
    ensures
        builder_froms(r) == builder_froms(b) + 1,
        builder_recipients(r) == builder_recipients(b),
{
    b.from(mb)
}

/// Relies on `lettre::message::MessageBuilder::to`: joins one mailbox into
/// the To header.
#[verifier::external_body]
fn builder_to(b: lettre::message::MessageBuilder, mb: lettre::message::Mailbox) -> (r:
    lettre::message::MessageBuilder)
    ensures
        builder_froms(r) == builder_froms(b),
        builder_recipients(r) == builder_recipients(b) + 1,
{
    b.to(mb)
}

/// Relies on `lettre::message::MessageBuilder::cc`: joins one mailbox into
/// the Cc header.
#[verifier::external_body]
fn builder_cc(b: lettre::message::MessageBuilder, mb: lettre::message::Mailbox) -> (r:
    lettre::message::MessageBuilder)
    ensures
        builder_froms(r) == builder_froms(b),
        builder_recipients(r) == builder_recipients(b) + 1,
{
    b.cc(mb)
}

/// Relies on `lettre::message::MessageBuilder::subject`: the sender and
/// recipient headers are untouched.
#[verifier::external_body]
fn builder_subject(b: lettre::message::MessageBuilder, s: String) -> (r:
    lettre::message::MessageBuilder)
    ensures
        builder_froms(r) == builder_froms(b),
        builder_recipients(r) == builder_recipients(b),
{
    b.subject(s)
}

/// Relies on `lettre::message::MessageBuilder::in_reply_to`: the sender and
/// recipient headers are untouched.
#[verifier::external_body]
fn builder_in_reply_to(b: lettre::message::MessageBuilder, id: String) -> (r:
    lettre::message::MessageBuilder)
    ensures
        builder_froms(r) == builder_froms(b),
        builder_recipients(r) == builder_recipients(b),
{
    b.in_reply_to(id)
}

/// Relies on `lettre::message::MessageBuilder::references`: the sender and
/// recipient headers are untouched.
#[verifier::external_body]
fn builder_references(b: lettre::message::MessageBuilder, id: String) -> (r:
    lettre::message::MessageBuilder)
    ensures
        builder_froms(r) == builder_froms(b),
        builder_recipients(r) == builder_recipients(b),
{
    b.references(id)
}

/// Relies on `lettre::message::MessageBuilder::body`: it fails only when the
/// sender header is missing or ambiguous or no recipient is set, so with
/// exactly one sender mailbox and a recipient it returns the message.
#[verifier::external_body]
fn builder_body(b: lettre::message::MessageBuilder, body: String) -> (r: Result<
    lettre::Message,
    lettre::error::Error,
>)
    ensures
        builder_froms(b) == 1 && builder_recipients(b) >= 1 ==> r is Ok,
{
    b.body(body)
}

/// Relies on `lettre::Message::formatted`.
#[verifier::external_body]
fn message_formatted(m: &lettre::Message) -> Vec<u8> {
    m.formatted()
}

/// Re-validates an identity and converts it for the mail builder.
fn mailbox_of(id: &Identity) -> (r: Result<lettre::message::Mailbox, ReplyError>)
    ensures
        (r is Ok) == id.wf(),
        !id.wf() ==> r == Result::<lettre::message::Mailbox, ReplyError>::Err(ReplyError::Validation),
{
    match parse_address(id.addr.as_str()) {
        Result::Ok(a) => Result::Ok(mailbox_new(clone_opt_string(&id.name), a)),
        Result::Err(_) => Result::Err(ReplyError::Validation),
    }
}

/// Builds the wire form of the outgoing message for the given send time,
/// re-validating every participant address on the way: the message comes back
/// exactly when every address of the envelope is valid.
pub fn render(out: &OutgoingMessage, send_secs: u64) -> (r: Result<lettre::Message, ReplyError>)
    requires
        send_secs < SEND_TIME_LIMIT_SECS,
    ensures
        (r is Ok) == out.wf(),
        !out.wf() ==> r == Result::<lettre::Message, ReplyError>::Err(ReplyError::Validation),
{
    let from = match mailbox_of(&out.from) {
        Result::Ok(m) => m,
        Result::Err(e) => {
            return Result::Err(e);
        },
    };
    let to = match mailbox_of(&out.to) {
        Result::Ok(m) => m,
        Result::Err(e) => {
            return Result::Err(e);
        },
    };
    let mut b = builder_new();
    b = builder_date_secs(b, send_secs);
    b = builder_from(b, from);
    b = builder_to(b, to);
    b = builder_subject(b, out.subject.clone());
    b = builder_in_reply_to(b, out.in_reply_to.clone());
    b = builder_references(b, out.references.clone());
    let mut i: usize = 0;
    while i < out.cc.len()
        invariant
            i <= out.cc@.len(),
            forall|j: int| 0 <= j < i ==> (#[trigger] out.cc@[j]).wf(),
            builder_froms(b) == 1,
            builder_recipients(b) == 1 + i,
        decreases out.cc@.len() - i,
    {
        let m = match mailbox_of(&out.cc[i]) {
            Result::Ok(m) => m,
            Result::Err(e) => {
                return Result::Err(e);
            },
        };
        b = builder_cc(b, m);
        i = i + 1;
    }
    match builder_body(b, out.body.clone()) {
        Result::Ok(m) => Result::Ok(m),
        Result::Err(_) => {
            proof {
                assert(false);
            }
            Result::Err(ReplyError::Validation)
        },
    }
}

/// Serializes the outgoing message verbatim, for dry-run output; the bytes
/// come back exactly when every address of the envelope is valid.
pub fn render_bytes(out: &OutgoingMessage, send_secs: u64) -> (r: Result<Vec<u8>, ReplyError>)
    requires
        send_secs < SEND_TIME_LIMIT_SECS,
    ensures
        (r is Ok) == out.wf(),
        !out.wf() ==> r == Result::<Vec<u8>, ReplyError>::Err(ReplyError::Validation),
{
    match render(out, send_secs) {
        Result::Ok(m) => Result::Ok(message_formatted(&m)),
        Result::Err(e) => Result::Err(e),
    }
}

} // verus!
