//! The reply draft: the quotation header, the quoted body under the
//! bounded-line truncation policy, the attestation trailers, and the
//! signature.

use crate::addr::Identity;
use crate::date::{date_str_of, rfc822_format, DateStamp};
use crate::Flags;
use vstd::prelude::*;
use vstd::seq_lib::lemma_flatten_concat;
use vstd::string::StringExecFns;
use vstd::string::StrSliceExecFns;

verus! {

/// How an identity is written in a trailer line: `name <address>`, or the
/// bare address when there is no display name.
pub open spec fn display_of(id: Identity) -> Seq<char> {
    match id.name {
        Option::Some(n) => n@ + " <"@ + id.addr@ + ">"@,
        Option::None => id.addr@,
    }
}

/// How the author is referred to in the quotation header: the display name
/// when present, else the bare address.
pub open spec fn name_or_addr(id: Identity) -> Seq<char> {
    match id.name {
        Option::Some(n) => n@,
        Option::None => id.addr@,
    }
}

/// The position of the first occurrence of `c` at or after `i`, or the length
/// of the string when there is none.
pub open spec fn first_at_from(s: Seq<char>, c: char, i: int) -> int
    decreases s.len() - i,
{
    if i >= s.len() {
        i
    } else if s[i] == c {
        i
    } else {
        first_at_from(s, c, i + 1)
    }
}

/// How the operator signs off: the display name up to its first space, or the
/// bare address when there is no display name.
pub open spec fn signer_of(id: Identity) -> Seq<char> {
    match id.name {
        Option::Some(n) => n@.take(first_at_from(n@, ' ', 0)),
        Option::None => id.addr@,
    }
}

/// The quotation header line.
pub open spec fn header_line(author: Identity, date_str: Seq<char>) -> Seq<char> {
    "On "@ + date_str + ", "@ + name_or_addr(author) + " wrote:\n"@
}

/// The position of the first signature-cut marker line at or after `i`, or
/// the number of lines when there is none.
pub open spec fn cut_from(ls: Seq<Seq<char>>, i: int) -> int
    decreases ls.len() - i,
{
    if i >= ls.len() {
        i
    } else if ls[i] == "---"@ {
        i
    } else {
        cut_from(ls, i + 1)
    }
}

/// The first `e` lines, each quoted as `"> line\n"`, in their original order.
pub open spec fn quoted_upto(ls: Seq<Seq<char>>, e: int) -> Seq<char>
    decreases e,
{
    if e <= 0 {
        Seq::empty()
    } else {
        quoted_upto(ls, e - 1) + "> "@ + ls[e - 1] + "\n"@
    }
}

/// How many lines are quoted: up to the cut marker, the end of the body, or
/// the bound of five, whichever comes first.
pub open spec fn quote_count(ls: Seq<Seq<char>>) -> int {
    let c = cut_from(ls, 0);
    let n = ls.len() as int;
    if c <= n && c <= 5 {
        c
    } else if n <= 5 {
        n
    } else {
        5
    }
}

/// Whether the quotation is truncated: more than five lines stand before any
/// cut marker.
pub open spec fn truncated(ls: Seq<Seq<char>>) -> bool {
    ls.len() > 5 && cut_from(ls, 0) > 5
}

/// The quoted section of the draft: the quoted lines, then, only when the
/// quotation is truncated, a blank quoted line and the literal marker.
pub open spec fn quote_block(ls: Seq<Seq<char>>) -> Seq<char> {
    quoted_upto(ls, quote_count(ls)) + (if truncated(ls) {
        "> \n"@ + "> [ ... ]\n"@
    } else {
        Seq::<char>::empty()
    })
}

/// One attestation trailer line.
pub open spec fn trailer_line(kind: Seq<char>, id: Identity) -> Seq<char> {
    kind + ": "@ + display_of(id) + "\n"@
}

/// The trailer lines a flag set asks for, in the fixed order acknowledged,
/// reviewed, tested.
pub open spec fn trailer_parts(f: Flags, id: Identity) -> Seq<Seq<char>> {
    (if f.acked {
        seq![trailer_line("Acked-by"@, id)]
    } else {
        Seq::<Seq<char>>::empty()
    }) + (if f.reviewed {
        seq![trailer_line("Reviewed-by"@, id)]
    } else {
        Seq::<Seq<char>>::empty()
    }) + (if f.tested {
        seq![trailer_line("Tested-by"@, id)]
    } else {
        Seq::<Seq<char>>::empty()
    })
}

/// The whole reply draft: quotation header, quoted section, a blank line with
/// the trailers, and the signature.
pub open spec fn draft_of(
    selfid: Identity,
    author: Identity,
    date_str: Seq<char>,
    ls: Seq<Seq<char>>,
    f: Flags,
) -> Seq<char> {
    header_line(author, date_str) + quote_block(ls) + "\n"@ + trailer_parts(f, selfid).flatten()
        + "\n"@ + "Thanks!\n"@ + signer_of(selfid) + "\n"@
}

/// Walking past positions that hold no marker does not move the cut.
proof fn lemma_cut_skip(ls: Seq<Seq<char>>, k: int)
    requires
        0 <= k <= ls.len(),
        forall|j: int| 0 <= j < k ==> ls[j] != "---"@,
    ensures
        cut_from(ls, 0) == cut_from(ls, k),
    decreases k,
{
    if k > 0 {
        lemma_cut_skip_step(ls, k - 1);
        lemma_cut_skip(ls, k - 1);
    }
}

proof fn lemma_cut_skip_step(ls: Seq<Seq<char>>, j: int)
    requires
        0 <= j < ls.len(),
        ls[j] != "---"@,
    ensures
        cut_from(ls, j) == cut_from(ls, j + 1),
{
}

proof fn lemma_cut_min(ls: Seq<Seq<char>>, k: int)
    requires
        0 <= k,
    ensures
        cut_from(ls, k) >= k,
    decreases ls.len() - k,
{
    if k < ls.len() && ls[k] != "---"@ {
        lemma_cut_min(ls, k + 1);
    }
}

/// Pins the cut: no marker stands before `i`, and either the body ends at `i`
/// or the marker stands at `i`.
proof fn lemma_cut_at(ls: Seq<Seq<char>>, i: int)
    requires
        0 <= i <= ls.len(),
        forall|j: int| 0 <= j < i ==> ls[j] != "---"@,
        i == ls.len() || ls[i] == "---"@,
    ensures
        cut_from(ls, 0) == i,
{
    lemma_cut_skip(ls, i);
}

/// A body of at most five lines with no cut marker is quoted whole, in its
/// original order, with no truncation marker.
pub proof fn lemma_quote_whole(ls: Seq<Seq<char>>)
    requires
        ls.len() <= 5,
        forall|j: int| 0 <= j < ls.len() ==> ls[j] != "---"@,
    ensures
        quote_block(ls) == quoted_upto(ls, ls.len() as int),
{
    lemma_cut_at(ls, ls.len() as int);
    assert(quote_block(ls) =~= quoted_upto(ls, ls.len() as int));
}

/// A body of more than five lines with no cut marker is quoted as exactly its
/// first five lines followed by the blank quoted line and the literal
/// truncation marker.
pub proof fn lemma_quote_truncated(ls: Seq<Seq<char>>)
    requires
        ls.len() > 5,
        forall|j: int| 0 <= j < ls.len() ==> ls[j] != "---"@,
    ensures
        quote_block(ls) == quoted_upto(ls, 5) + "> \n"@ + "> [ ... ]\n"@,
{
    lemma_cut_at(ls, ls.len() as int);
    assert(quote_block(ls) =~= quoted_upto(ls, 5) + "> \n"@ + "> [ ... ]\n"@);
}

/// When a cut marker stands within the five-line budget, quoting stops
/// strictly before it, whatever the remaining length, and nothing is
/// truncated.
pub proof fn lemma_quote_cut(ls: Seq<Seq<char>>, m: int)
    requires
        0 <= m <= 5,
        m < ls.len(),
        ls[m] == "---"@,
        forall|j: int| 0 <= j < m ==> ls[j] != "---"@,
    ensures
        quote_block(ls) == quoted_upto(ls, m),
{
    lemma_cut_at(ls, m);
    assert(quote_block(ls) =~= quoted_upto(ls, m));
}

/// A flag set with `k` of the three flags set yields exactly `k` trailer
/// lines, in the fixed order acknowledged, reviewed, tested, and no others.
pub proof fn lemma_trailer_lines(f: Flags, id: Identity)
    ensures
        trailer_parts(f, id).len() == crate::trailer_count(f),
        f.acked ==> trailer_parts(f, id)[0] == trailer_line("Acked-by"@, id),
        f.reviewed ==> trailer_parts(f, id)[if f.acked {
            1int
        } else {
            0int
        }] == trailer_line("Reviewed-by"@, id),
        f.tested ==> trailer_parts(f, id)[trailer_parts(f, id).len() - 1] == trailer_line(
            "Tested-by"@,
            id,
        ),
        forall|i: int| 0 <= i < trailer_parts(f, id).len() ==> (#[trigger] trailer_parts(f, id)[i]
            == trailer_line("Acked-by"@, id) || trailer_parts(f, id)[i] == trailer_line(
            "Reviewed-by"@,
            id,
        ) || trailer_parts(f, id)[i] == trailer_line("Tested-by"@, id)),
{
}

/// Appends `name <address>` or the bare address.
fn append_display(out: &mut String, id: &Identity)
    ensures
        final(out)@ == old(out)@ + display_of(*id),
{
    match &id.name {
        Option::Some(n) => {
            out.append(n.as_str());
            out.append(" <");
            out.append(id.addr.as_str());
            out.append(">");
            proof {
                assert(out@ =~= old(out)@ + display_of(*id));
            }
        },
        Option::None => {
            out.append(id.addr.as_str());
        },
    }
}

/// The position of the first occurrence of `c` in `s`, or the length of `s`.
fn find_char(s: &str, c: char) -> (r: usize)
    ensures
        r as int == first_at_from(s@, c, 0),
        r <= s@.len(),
{
    let n = s.unicode_len();
    let mut i: usize = 0;
    loop
        invariant
            i <= n,
            n == s@.len(),
            first_at_from(s@, c, 0) == first_at_from(s@, c, i as int),
        ensures
            i <= n,
            i as int == first_at_from(s@, c, 0),
        decreases n - i,
    {
        if i >= n {
            break ;
        }
        if s.get_char(i) == c {
            break ;
        }
        i = i + 1;
    }
    i
}


/// Appends the quoted section for the body lines: each line under the budget
/// as `"> line\n"`, stopping at a cut marker, with the truncation marker when
/// more than five lines precede any cut.
fn append_quote_block(out: &mut String, lines: &Vec<String>)
    ensures
        final(out)@ == old(out)@ + quote_block(lines.deep_view()),
{
    let ghost ls = lines.deep_view();
    let marker = String::from_str("---");
    let n = lines.len();
    let mut i: usize = 0;
    loop
        invariant_except_break
            out@ == old(out)@ + quoted_upto(ls, i as int),
        invariant
            i <= n,
            i <= 5,
            n == ls.len(),
            n == lines@.len(),
            ls == lines.deep_view(),
            marker@ == "---"@,
            forall|j: int| 0 <= j < i ==> ls[j] != "---"@,
        ensures
            out@ == old(out)@ + quote_block(ls),
        decreases n - i,
    {
        if i >= n {
            proof {
                lemma_cut_at(ls, n as int);
                assert(out@ =~= old(out)@ + quote_block(ls));
            }
            break ;
        }
        let line = &lines[i];
        proof {
            assert(ls[i as int] == lines@[i as int]@);
        }
        if *line == marker {
            proof {
                lemma_cut_at(ls, i as int);
                assert(out@ =~= old(out)@ + quote_block(ls));
            }
            break ;
        }
        if i >= crate::MAX_LINES {
            out.append("> \n");
            out.append("> [ ... ]\n");
            proof {
                lemma_cut_skip(ls, 6);
                lemma_cut_min(ls, 6);
                assert(out@ =~= old(out)@ + quote_block(ls));
            }
            break ;
        }
        out.append("> ");
        out.append(line.as_str());
        out.append("\n");
        proof {
            assert(out@ =~= old(out)@ + quoted_upto(ls, i + 1int));
        }
        i = i + 1;
    }
}

/// Builds the reply draft for the given operator, message author, timestamp,
/// body lines and attestation flags.
#[verifier::rlimit(100)]
pub fn compose_body(
    selfid: &Identity,
    author: &Identity,
    date: &DateStamp,
    lines: &Vec<String>,
    flags: Flags,
) -> (r: String)
    ensures
        r@ == draft_of(*selfid, *author, date_str_of(*date), lines.deep_view(), flags),
{
    let ghost ls = lines.deep_view();
    let ds = rfc822_format(date);
    let mut out = String::new();
    out.append("On ");
    out.append(ds.as_str());
    out.append(", ");
    match &author.name {
        Option::Some(n) => out.append(n.as_str()),
        Option::None => out.append(author.addr.as_str()),
    }
    out.append(" wrote:\n");
    let ghost hdr = header_line(*author, date_str_of(*date));
    proof {
        assert(out@ =~= hdr);
    }
    append_quote_block(&mut out, lines);
    proof {
        assert(out@ =~= hdr + quote_block(ls));
    }
    out.append("\n");
    let ghost pre = out@;
    if flags.acked {
        out.append("Acked-by");
        out.append(": ");
        append_display(&mut out, selfid);
        out.append("\n");
    }
    if flags.reviewed {
        out.append("Reviewed-by");
        out.append(": ");
        append_display(&mut out, selfid);
        out.append("\n");
    }
    if flags.tested {
        out.append("Tested-by");
        out.append(": ");
        append_display(&mut out, selfid);
        out.append("\n");
    }
    proof {
        let pa: Seq<Seq<char>> = if flags.acked {
            seq![trailer_line("Acked-by"@, *selfid)]
        } else {
            Seq::empty()
        };
        let pr: Seq<Seq<char>> = if flags.reviewed {
            seq![trailer_line("Reviewed-by"@, *selfid)]
        } else {
            Seq::empty()
        };
        let pt: Seq<Seq<char>> = if flags.tested {
            seq![trailer_line("Tested-by"@, *selfid)]
        } else {
            Seq::empty()
        };
        lemma_flatten_concat(pa + pr, pt);
        lemma_flatten_concat(pa, pr);
        pa.lemma_flatten_one_element();
        pr.lemma_flatten_one_element();
        pt.lemma_flatten_one_element();
        assert(trailer_parts(flags, *selfid).flatten() =~= pa.flatten() + pr.flatten()
            + pt.flatten());
        assert(out@ =~= pre + trailer_parts(flags, *selfid).flatten());
    }
    out.append("\n");
    out.append("Thanks!\n");
    match &selfid.name {
        Option::Some(n) => {
            let cut = find_char(n.as_str(), ' ');
            let tok = n.as_str().substring_char(0, cut);
            out.append(tok);
        },
        Option::None => {
            out.append(selfid.addr.as_str());
        },
    }
    out.append("\n");
    proof {
        assert(out@ =~= draft_of(*selfid, *author, date_str_of(*date), ls, flags));
    }
    out
}

} // verus!
