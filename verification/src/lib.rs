//! Composition core for a one-shot mail reply tool: it interprets an inbound
//! message, derives the deduplicated recipient set, quotes the body under a
//! bounded-line truncation policy, and assembles the outgoing headers.

pub mod addr;
pub mod compose;
pub mod config;
pub mod date;
pub mod errors;
pub mod inbound;
pub mod outbound;
pub mod recipients;

use crate::addr::{is_valid_addr, Identity};
use crate::compose::{compose_body, draft_of};
use crate::config::{resolve_identity, Config};
use crate::date::date_str_of;
use crate::errors::{ConfigFault, ParseFault, ReplyError};
use crate::inbound::{
    author_raw, expected_fault, identities_of, identity_of, interpret, lines_of, parsed_of,
    raw_complete, RawMailbox, RawMessage,
};
use crate::outbound::{assemble, reply_reference, reply_subject, OutgoingMessage};
use crate::recipients::{
    build_recipient_set, lemma_recipients_wf, opt_ids, recipient_set_ok,
};
use vstd::prelude::*;

verus! {

/// The bound on the number of body lines quoted in a reply.
pub const MAX_LINES: usize = 5;

/// The set of attestation flags a reply may carry.
#[derive(Clone, Copy, Debug, PartialEq, Eq, Structural)]
pub struct Flags {
    pub acked: bool,
    pub reviewed: bool,
    pub tested: bool,
}

/// How many trailer lines a flag set asks for.
pub open spec fn trailer_count(f: Flags) -> int {
    (if f.acked {
        1int
    } else {
        0int
    }) + (if f.reviewed {
        1int
    } else {
        0int
    }) + (if f.tested {
        1int
    } else {
        0int
    })
}

/// The configuration carries a valid operator address.
pub open spec fn config_ok(cfg: Config) -> bool {
    cfg.user_email matches Some(e) && is_valid_addr(e@)
}

/// Which configuration fault an unusable operator identity yields.
pub open spec fn config_fault(cfg: Config) -> ReplyError {
    if cfg.user_email is None {
        ReplyError::Configuration(ConfigFault::MissingAddress)
    } else {
        ReplyError::Configuration(ConfigFault::MalformedAddress)
    }
}

/// The operator identity a usable configuration yields.
pub open spec fn operator_of(cfg: Config) -> Identity {
    Identity { name: cfg.user_name, addr: cfg.user_email->0 }
}

/// The identities an optional reported mailbox list stands for.
pub open spec fn opt_identities(o: Option<Vec<RawMailbox>>) -> Option<Seq<Identity>> {
    match o {
        Option::Some(l) => Option::Some(identities_of(l@)),
        Option::None => Option::None,
    }
}

/// The envelope a usable configuration and a complete message yield: From is
/// the operator, To the author, the subject and threading references are
/// derived, the body is the composed draft, and the Cc list is the canonical
/// recipient set.
pub open spec fn reply_ok(cfg: Config, rm: RawMessage, flags: Flags, out: OutgoingMessage) -> bool {
    let me = operator_of(cfg);
    let author = identity_of(author_raw(rm));
    &&& out.from == me
    &&& out.to == author
    &&& (rm.subject matches Some(su) && out.subject@ == reply_subject(su@))
    &&& (rm.message_id matches Some(mi) && out.in_reply_to@ == reply_reference(mi@)
        && out.references@ == reply_reference(mi@))
    &&& (rm.date matches Some(d) && rm.body matches Some(b) && out.body@ == draft_of(
        me,
        author,
        date_str_of(d),
        lines_of(b@),
        flags,
    ))
    &&& recipient_set_ok(out.cc@, me, author, opt_identities(rm.to), opt_identities(rm.cc))
}

/// The whole composition: resolves the operator identity, interprets the
/// inbound bytes, derives the recipient set, composes the draft, and
/// assembles the outgoing envelope. An envelope comes back exactly for a
/// usable configuration and a complete message, and every failure is the
/// typed fault of the step that found it.
#[verifier::rlimit(100)]
#[verifier::spinoff_prover]
pub fn compose_reply(cfg: &Config, input: &[u8], flags: Flags) -> (r: Result<
    OutgoingMessage,
    ReplyError,
>)
    ensures
        !config_ok(*cfg) ==> r == Result::<OutgoingMessage, ReplyError>::Err(config_fault(*cfg)),
        config_ok(*cfg) ==> ((parsed_of(input@) is None) == (r == Result::<
            OutgoingMessage,
            ReplyError,
        >::Err(ReplyError::Parse(ParseFault::Unparsable)))),
        config_ok(*cfg) ==> (parsed_of(input@) matches Some(rm) ==> ((r is Ok) == raw_complete(
            rm,
        ))),
        config_ok(*cfg) ==> (parsed_of(input@) matches Some(rm) ==> (r matches Err(e) ==> e
            == expected_fault(rm))),
        config_ok(*cfg) ==> (parsed_of(input@) matches Some(rm) ==> (r matches Ok(out)
            ==> reply_ok(*cfg, rm, flags, out))),
        r matches Ok(out) ==> out.wf(),
{
    let selfid = match resolve_identity(cfg) {
        Result::Ok(s) => s,
        Result::Err(e) => {
            return Result::Err(e);
        },
    };
    proof {
        assert(selfid == operator_of(*cfg));
    }
    let msg = match interpret(input) {
        Result::Ok(m) => m,
        Result::Err(e) => {
            return Result::Err(e);
        },
    };
    let recipients = build_recipient_set(&selfid, &msg.author, &msg.to, &msg.cc);
    proof {
        let rm = parsed_of(input@)->0;
        assert(opt_ids(msg.to) == opt_identities(rm.to));
        assert(opt_ids(msg.cc) == opt_identities(rm.cc));
        lemma_recipients_wf(recipients@, selfid, msg.author, opt_ids(msg.to), opt_ids(msg.cc));
    }
    let draft = compose_body(&selfid, &msg.author, &msg.date, &msg.body_lines, flags);
    let out = assemble(&selfid, &msg, recipients, draft);
    proof {
        let rm = parsed_of(input@)->0;
        assert(recipient_set_ok(
            out.cc@,
            operator_of(*cfg),
            identity_of(author_raw(rm)),
            opt_identities(rm.to),
            opt_identities(rm.cc),
        ));
        assert(reply_ok(*cfg, rm, flags, out));
        assert(out.wf());
    }
    Result::Ok(out)
}

} // verus!
