//! Interpreting the inbound message: the structural decoding is delegated to
//! the message-parsing library, and this module validates completeness,
//! validates every address, and normalizes the first text body into lines.

use crate::addr::{clone_opt_string, is_valid_addr, parse_address, Identity};
use crate::compose::first_at_from;
use crate::date::DateStamp;
use crate::errors::{ParseFault, ReplyError};
use vstd::prelude::*;
use vstd::string::StringExecFns;
use vstd::string::StrSliceExecFns;

verus! {

/// One mailbox as the parsing library reports it: both parts may be absent.
#[derive(Debug)]
pub struct RawMailbox {
    pub name: Option<String>,
    pub addr: Option<String>,
}

/// Everything read from the inbound message before validation.
#[derive(Debug)]
pub struct RawMessage {
    pub from: Option<Vec<RawMailbox>>,
    pub to: Option<Vec<RawMailbox>>,
    pub cc: Option<Vec<RawMailbox>>,
    pub subject: Option<String>,
    pub message_id: Option<String>,
    pub date: Option<DateStamp>,
    pub body: Option<String>,
}

/// The validated, immutable snapshot of the inbound message.
#[derive(Debug)]
pub struct ParsedMessage {
    pub author: Identity,
    pub to: Option<Vec<Identity>>,
    pub cc: Option<Vec<Identity>>,
    pub subject: String,
    pub date: DateStamp,
    pub message_id: String,
    pub body_lines: Vec<String>,
}

/// Every identity of an optional list has a valid address.
pub open spec fn opt_all_wf(o: Option<Vec<Identity>>) -> bool {
    match o {
        Option::Some(v) => forall|i: int| 0 <= i < v@.len() ==> (#[trigger] v@[i]).wf(),
        Option::None => true,
    }
}

impl ParsedMessage {
    /// Every participant address of the snapshot is valid.
    pub open spec fn wf(self) -> bool {
        self.author.wf() && opt_all_wf(self.to) && opt_all_wf(self.cc)
    }
}

/// A reported mailbox carries a syntactically valid address.
pub open spec fn mailbox_ok(m: RawMailbox) -> bool {
    m.addr is Some && is_valid_addr(m.addr->0@)
}

/// The identity a valid reported mailbox stands for.
pub open spec fn identity_of(m: RawMailbox) -> Identity {
    Identity { name: m.name, addr: m.addr->0 }
}

/// The identities a list of valid reported mailboxes stands for.
pub open spec fn identities_of(l: Seq<RawMailbox>) -> Seq<Identity> {
    Seq::new(l.len(), |i: int| identity_of(l[i]))
}

/// Every mailbox of the list carries a valid address.
pub open spec fn list_ok(l: Seq<RawMailbox>) -> bool {
    forall|i: int| 0 <= i < l.len() ==> mailbox_ok(#[trigger] l[i])
}

/// The message names an author.
pub open spec fn author_present(raw: RawMessage) -> bool {
    raw.from matches Some(l) && l@.len() > 0
}

/// The author's reported mailbox.
pub open spec fn author_raw(raw: RawMessage) -> RawMailbox {
    match raw.from {
        Option::Some(l) => l@[0],
        Option::None => vstd::pervasive::arbitrary(),
    }
}

/// An optional recipient list is absent or carries only valid addresses.
pub open spec fn opt_list_ok(o: Option<Vec<RawMailbox>>) -> bool {
    match o {
        Option::Some(l) => list_ok(l@),
        Option::None => true,
    }
}

/// Everything mandatory is present and every address is valid: exactly then a
/// snapshot is built.
pub open spec fn raw_complete(raw: RawMessage) -> bool {
    author_present(raw) && mailbox_ok(author_raw(raw)) && raw.date is Some && raw.message_id
        is Some && raw.subject is Some && raw.body is Some && opt_list_ok(raw.to) && opt_list_ok(
        raw.cc,
    )
}

/// The snapshot a complete raw message yields: every field carried over,
/// the body normalized into lines.
pub open spec fn outcome_ok(raw: RawMessage, pm: ParsedMessage) -> bool {
    &&& pm.author == identity_of(author_raw(raw))
    &&& (pm.to is Some) == (raw.to is Some)
    &&& (raw.to matches Some(l) ==> (pm.to matches Some(v) && v@ == identities_of(l@)))
    &&& (pm.cc is Some) == (raw.cc is Some)
    &&& (raw.cc matches Some(l) ==> (pm.cc matches Some(v) && v@ == identities_of(l@)))
    &&& (raw.subject matches Some(su) && pm.subject == su)
    &&& (raw.message_id matches Some(mi) && pm.message_id == mi)
    &&& (raw.date matches Some(d) && pm.date == d)
    &&& (raw.body matches Some(b) && pm.body_lines.deep_view() == lines_of(b@))
}

/// Which fault an incomplete raw message yields, in the fixed check order:
/// author present, author valid, date, message id, subject, text body,
/// To and Cc lists valid.
pub open spec fn expected_fault(raw: RawMessage) -> ReplyError {
    if !author_present(raw) {
        ReplyError::Parse(ParseFault::MissingAuthor)
    } else if !mailbox_ok(author_raw(raw)) {
        ReplyError::Validation
    } else if raw.date is None {
        ReplyError::Parse(ParseFault::MissingDate)
    } else if raw.message_id is None {
        ReplyError::Parse(ParseFault::MissingMessageId)
    } else if raw.subject is None {
        ReplyError::Parse(ParseFault::MissingSubject)
    } else if raw.body is None {
        ReplyError::Parse(ParseFault::MissingBody)
    } else {
        ReplyError::Validation
    }
}

/// Validates one reported mailbox into an identity.
fn identity_from_raw(m: &RawMailbox) -> (r: Result<Identity, ReplyError>)
    ensures
        (r is Ok) == mailbox_ok(*m),
        !mailbox_ok(*m) ==> r == Result::<Identity, ReplyError>::Err(ReplyError::Validation),
        r matches Ok(id) ==> id == identity_of(*m) && id.wf(),
{
    match &m.addr {
        Option::Some(a) => match parse_address(a.as_str()) {
            Result::Ok(_) => Result::Ok(
                Identity { name: clone_opt_string(&m.name), addr: a.clone() },
            ),
            Result::Err(_) => Result::Err(ReplyError::Validation),
        },
        Option::None => Result::Err(ReplyError::Validation),
    }
}

/// Validates a whole reported list into identities.
fn identities_from_raw(l: &Vec<RawMailbox>) -> (r: Result<Vec<Identity>, ReplyError>)
    ensures
        (r is Ok) == list_ok(l@),
        !list_ok(l@) ==> r == Result::<Vec<Identity>, ReplyError>::Err(ReplyError::Validation),
        r matches Ok(v) ==> v@ == identities_of(l@),
{
    let mut out: Vec<Identity> = Vec::new();
    let mut i: usize = 0;
    while i < l.len()
        invariant
            i <= l.len(),
            out@.len() == i,
            forall|j: int| 0 <= j < i ==> mailbox_ok(#[trigger] l@[j]),
            forall|j: int| 0 <= j < i ==> out@[j] == identity_of(#[trigger] l@[j]),
        decreases l.len() - i,
    {
        match identity_from_raw(&l[i]) {
            Result::Ok(id) => out.push(id),
            Result::Err(e) => {
                return Result::Err(e);
            },
        }
        i = i + 1;
    }
    proof {
        assert(out@ =~= identities_of(l@));
    }
    Result::Ok(out)
}

/// Where the next line ends: the position of the first newline at or after
/// `i`, or the length of the text.
pub open spec fn nl_after(s: Seq<char>, i: int) -> int {
    let k = first_at_from(s, '\n', i);
    if k >= i {
        k
    } else {
        i
    }
}

/// A line with its terminator removed: one carriage return is stripped from
/// its end, as it belonged to the terminator.
pub open spec fn strip_cr(seg: Seq<char>) -> Seq<char> {
    if seg.len() > 0 && seg[seg.len() - 1] == '\r' {
        seg.drop_last()
    } else {
        seg
    }
}

/// The lines of the text from position `i` on: split at newlines, each
/// newline-terminated segment stripped of one trailing carriage return, and
/// no final empty line for a text that ends with a newline.
pub open spec fn lines_from(s: Seq<char>, i: int) -> Seq<Seq<char>>
    decreases s.len() - i,
{
    if i >= s.len() {
        Seq::empty()
    } else {
        let k = nl_after(s, i);
        if k >= s.len() {
            seq![s.subrange(i, s.len() as int)]
        } else {
            seq![strip_cr(s.subrange(i, k))] + lines_from(s, k + 1)
        }
    }
}

/// The lines of a whole text.
pub open spec fn lines_of(s: Seq<char>) -> Seq<Seq<char>> {
    lines_from(s, 0)
}

/// Pins the first occurrence: no match stands in `[a, i)`, and either the
/// text ends at `i` or a match stands at `i`.
proof fn lemma_first_at_pin(s: Seq<char>, c: char, a: int, i: int)
    requires
        0 <= a <= i <= s.len(),
        forall|j: int| a <= j < i ==> s[j] != c,
        i == s.len() || s[i] == c,
    ensures
        first_at_from(s, c, a) == i,
    decreases i - a,
{
    if a < i {
        lemma_first_at_pin(s, c, a + 1, i);
    }
}

/// Splits a text into its lines, as the snapshot holds them.
pub fn split_lines(s: &str) -> (r: Vec<String>)
    ensures
        r.deep_view() == lines_of(s@),
{
    let n = s.unicode_len();
    let mut out: Vec<String> = Vec::new();
    let mut start: usize = 0;
    let mut i: usize = 0;
    while i < n
        invariant
            start <= i <= n,
            n == s@.len(),
            out.deep_view() + lines_from(s@, start as int) == lines_of(s@),
            forall|j: int| start <= j < i ==> s@[j] != '\n',
        decreases n - i,
    {
        let ghost old_deep = out.deep_view();
        if s.get_char(i) == '\n' {
            let mut end = i;
            if end > start && s.get_char(end - 1) == '\r' {
                end = end - 1;
            }
            let seg = s.substring_char(start, end);
            out.push(String::from_str(seg));
            proof {
                lemma_first_at_pin(s@, '\n', start as int, i as int);
                assert(seg@ =~= strip_cr(s@.subrange(start as int, i as int)));
                assert(out.deep_view() =~~= old_deep.push(seg@));
                assert(lines_from(s@, start as int) =~= seq![seg@] + lines_from(s@, i + 1int));
                assert(out.deep_view() + lines_from(s@, i + 1int) =~= old_deep + lines_from(
                    s@,
                    start as int,
                ));
            }
            start = i + 1;
        }
        i = i + 1;
    }
    let ghost old_deep = out.deep_view();
    if start < n {
        let seg = s.substring_char(start, n);
        out.push(String::from_str(seg));
        proof {
            lemma_first_at_pin(s@, '\n', start as int, n as int);
            assert(lines_from(s@, start as int) =~= seq![seg@]);
            assert(out.deep_view() =~~= old_deep.push(seg@));
            assert(out.deep_view() =~= old_deep + lines_from(s@, start as int));
        }
    } else {
        proof {
            assert(out.deep_view() =~= old_deep + lines_from(s@, start as int));
        }
    }
    out
}

/// Validates completeness and builds the snapshot; exactly one fault is
/// reported for an incomplete message, checked in a fixed order: author
/// present, author valid, date, message id, subject, text body, To list
/// valid, Cc list valid.
pub fn build_parsed(raw: RawMessage) -> (r: Result<ParsedMessage, ReplyError>)
    ensures
        (r is Ok) == raw_complete(raw),
        r matches Ok(pm) ==> outcome_ok(raw, pm) && pm.wf(),
        r matches Err(e) ==> e == expected_fault(raw),
{
    let author_mb = match &raw.from {
        Option::Some(l) => {
            if l.len() == 0 {
                return Result::Err(ReplyError::Parse(ParseFault::MissingAuthor));
            }
            &l[0]
        },
        Option::None => {
            return Result::Err(ReplyError::Parse(ParseFault::MissingAuthor));
        },
    };
    let author = match identity_from_raw(author_mb) {
        Result::Ok(id) => id,
        Result::Err(e) => {
            return Result::Err(e);
        },
    };
    let date = match &raw.date {
        Option::Some(d) => *d,
        Option::None => {
            return Result::Err(ReplyError::Parse(ParseFault::MissingDate));
        },
    };
    let message_id = match &raw.message_id {
        Option::Some(m) => m.clone(),
        Option::None => {
            return Result::Err(ReplyError::Parse(ParseFault::MissingMessageId));
        },
    };
    let subject = match &raw.subject {
        Option::Some(s) => s.clone(),
        Option::None => {
            return Result::Err(ReplyError::Parse(ParseFault::MissingSubject));
        },
    };
    let body = match &raw.body {
        Option::Some(b) => b,
        Option::None => {
            return Result::Err(ReplyError::Parse(ParseFault::MissingBody));
        },
    };
    let to = match &raw.to {
        Option::Some(l) => match identities_from_raw(l) {
            Result::Ok(v) => Option::Some(v),
            Result::Err(e) => {
                return Result::Err(e);
            },
        },
        Option::None => Option::None,
    };
    let cc = match &raw.cc {
        Option::Some(l) => match identities_from_raw(l) {
            Result::Ok(v) => Option::Some(v),
            Result::Err(e) => {
                return Result::Err(e);
            },
        },
        Option::None => Option::None,
    };
    let body_lines = split_lines(body.as_str());
    Result::Ok(
        ParsedMessage { author, to, cc, subject, date, message_id, body_lines },
    )
}

#[verifier::external_type_specification]
#[verifier::external_body]
pub struct ExMessage<'a>(mail_parser::Message<'a>);

#[verifier::external_type_specification]
#[verifier::external_body]
pub struct ExMpAddress<'a>(mail_parser::Address<'a>);

#[verifier::external_type_specification]
#[verifier::external_body]
pub struct ExDateTime(mail_parser::DateTime);

/// What the message parser reads from raw bytes: nothing when the bytes hold
/// no message; a function of the bytes alone.
pub uninterp spec fn parsed_of(bytes: Seq<u8>) -> Option<RawMessage>;

/// Relies on `mail_parser::Address::into_list` (on a clone), which flattens
/// groups; each mailbox's display name and address are handed out as they
/// were reported.
#[verifier::external_body]
fn address_mailboxes(a: &mail_parser::Address) -> Vec<RawMailbox> {
    a.clone().into_list().into_iter().map(
        |x: mail_parser::Addr| RawMailbox {
            name: x.name.map(|c| c.into_owned()),
            addr: x.address.map(|c| c.into_owned()),
        },
    ).collect()
}

/// Relies on the public calendar fields of `mail_parser::DateTime`: copies
/// them one for one.
#[verifier::external_body]
fn stamp_fields(d: &mail_parser::DateTime) -> DateStamp {
    DateStamp {
        year: d.year,
        month: d.month,
        day: d.day,
        hour: d.hour,
        minute: d.minute,
        second: d.second,
        tz_before_gmt: d.tz_before_gmt,
        tz_hour: d.tz_hour,
        tz_minute: d.tz_minute,
    }
}

/// Relies on `mail_parser::Message::text_bodies`: the first text part, when
/// it is plain text.
#[verifier::external_body]
fn first_text_body(m: &mail_parser::Message) -> Option<String> {
    match m.text_bodies().next() {
        Some(p) => match &p.body {
            mail_parser::PartType::Text(t) => Some(t.clone().into_owned()),
            _ => None,
        },
        None => None,
    }
}

/// Relies on `mail_parser::MessageParser::parse` and the accessors `from`,
/// `to`, `cc`, `subject`, `message_id` and `date`, with the three helpers
/// above converting: everything the parser reads is a function of the raw
/// bytes alone.
#[verifier::external_body]
fn parse_raw(raw: &[u8]) -> (r: Option<RawMessage>)
    ensures
        r == parsed_of(raw@),
{
    let m = mail_parser::MessageParser::new().parse(raw)?;
    Some(RawMessage {
        from: m.from().map(address_mailboxes),
        to: m.to().map(address_mailboxes),
        cc: m.cc().map(address_mailboxes),
        subject: m.subject().map(String::from),
        message_id: m.message_id().map(String::from),
        date: m.date().map(stamp_fields),
        body: first_text_body(&m),
    })
}

/// Turns raw bytes into the validated snapshot: the structural decoding is
/// the parsing library's, and whatever it reports is validated here, so a
/// snapshot is handed back exactly for a decodable message with every
/// mandatory field present and every address valid.
pub fn interpret(raw: &[u8]) -> (r: Result<ParsedMessage, ReplyError>)
    ensures
        (parsed_of(raw@) is None) == (r == Result::<ParsedMessage, ReplyError>::Err(
            ReplyError::Parse(ParseFault::Unparsable),
        )),
        parsed_of(raw@) matches Some(rm) ==> ((r is Ok) == raw_complete(rm)),
        parsed_of(raw@) matches Some(rm) ==> (r matches Ok(pm) ==> outcome_ok(rm, pm)
            && pm.wf()),
        parsed_of(raw@) matches Some(rm) ==> (r matches Err(e) ==> e == expected_fault(rm)),
{
    match parse_raw(raw) {
        Option::Some(rm) => build_parsed(rm),
        Option::None => Result::Err(ReplyError::Parse(ParseFault::Unparsable)),
    }
}

} // verus!
