//! The recipient set of a reply: the operator plus everyone on the original
//! To and Cc lists, sorted into the canonical case-insensitive order, with one
//! entry per address, and with the author's address removed.

use crate::addr::{
    addr_eqv, addr_eqv_exec, addr_key, id_le, id_le_exec, lemma_id_le_keys, lemma_id_total,
    lemma_id_trans, lemma_lex_mutual, Identity,
};
use vstd::prelude::*;

verus! {

/// Non-strict sortedness under the identity order.
pub open spec fn sorted_ids(s: Seq<Identity>) -> bool {
    forall|i: int, j: int| 0 <= i < j < s.len() ==> id_le(s[i], s[j])
}

/// Strict sortedness: sorted, and no two entries share an address.
pub open spec fn strictly_sorted_ids(s: Seq<Identity>) -> bool {
    forall|i: int, j: int| 0 <= i < j < s.len() ==> id_le(s[i], s[j]) && !addr_eqv(s[i], s[j])
}

/// The contents of an optional identity list.
pub open spec fn opt_ids(o: Option<Vec<Identity>>) -> Option<Seq<Identity>> {
    match o {
        Option::Some(v) => Option::Some(v@),
        Option::None => Option::None,
    }
}

/// The working list the recipient set is computed from: the operator first,
/// then the To list, then the Cc list, in arrival order.
pub open spec fn gathered(
    selfid: Identity,
    to: Option<Seq<Identity>>,
    cc: Option<Seq<Identity>>,
) -> Seq<Identity> {
    seq![selfid] + (match to {
        Option::Some(t) => t,
        Option::None => Seq::empty(),
    }) + (match cc {
        Option::Some(c) => c,
        Option::None => Seq::empty(),
    })
}

/// What the recipient set promises: canonically sorted, one entry per
/// address, no entry carrying the author's address, every entry from the
/// working list, and every non-author address of the working list
/// represented.
pub open spec fn recipient_set_ok(
    r: Seq<Identity>,
    selfid: Identity,
    author: Identity,
    to: Option<Seq<Identity>>,
    cc: Option<Seq<Identity>>,
) -> bool {
    &&& strictly_sorted_ids(r)
    &&& forall|i: int| 0 <= i < r.len() ==> !addr_eqv(#[trigger] r[i], author)
    &&& forall|i: int| 0 <= i < r.len() ==> gathered(selfid, to, cc).contains(#[trigger] r[i])
    &&& forall|x: Identity|
        gathered(selfid, to, cc).contains(x) && !addr_eqv(x, author) ==> exists|i: int|
            0 <= i < r.len() && addr_eqv(#[trigger] r[i], x)
}

/// Appends clones of all of `src` to `dst`.
fn append_ids(dst: &mut Vec<Identity>, src: &Vec<Identity>)
    ensures
        final(dst)@ == old(dst)@ + src@,
{
    let mut k: usize = 0;
    while k < src.len()
        invariant
            k <= src.len(),
            dst@ == old(dst)@ + src@.take(k as int),
        decreases src.len() - k,
    {
        dst.push(src[k].clone());
        proof {
            assert(src@.take(k + 1int) =~= src@.take(k as int).push(src@[k as int]));
            assert(old(dst)@ + src@.take(k + 1int) =~= (old(dst)@ + src@.take(k as int)).push(
                src@[k as int],
            ));
        }
        k = k + 1;
    }
    proof {
        assert(src@.take(src@.len() as int) =~= src@);
    }
}

/// Sorts identities by the canonical order, keeping exactly the same entries.
fn sort_ids(input: &Vec<Identity>) -> (r: Vec<Identity>)
    ensures
        sorted_ids(r@),
        forall|i: int| 0 <= i < r@.len() ==> input@.contains(r@[i]),
        forall|x: Identity| input@.contains(x) ==> r@.contains(x),
{
    let mut out: Vec<Identity> = Vec::new();
    let mut k: usize = 0;
    while k < input.len()
        invariant
            k <= input.len(),
            sorted_ids(out@),
            forall|i: int| 0 <= i < out@.len() ==> input@.contains(out@[i]),
            forall|x: Identity| input@.take(k as int).contains(x) ==> out@.contains(x),
        decreases input.len() - k,
    {
        let x = input[k].clone();
        let mut p: usize = 0;
        loop
            invariant
                p <= out.len(),
                sorted_ids(out@),
                forall|i: int| 0 <= i < p ==> id_le(out@[i], x),
            ensures
                p <= out.len(),
                forall|i: int| 0 <= i < p ==> id_le(out@[i], x),
                forall|i: int| p <= i < out@.len() ==> id_le(x, out@[i]),
            decreases out.len() - p,
        {
            if p >= out.len() {
                break ;
            }
            if !id_le_exec(&out[p], &x) {
                proof {
                    lemma_id_total(out@[p as int], x);
                    assert forall|i: int| p <= i < out@.len() implies id_le(x, out@[i]) by {
                        if i > p {
                            assert(id_le(out@[p as int], out@[i]));
                            lemma_id_trans(x, out@[p as int], out@[i]);
                        }
                    }
                }
                break ;
            }
            p = p + 1;
        }
        let ghost old_out = out@;
        out.insert(p, x);
        proof {
            old_out.insert_ensures(p as int, x);
            assert(input@.contains(x)) by {
                assert(input@[k as int] == x);
            }
            assert forall|i: int, j: int| 0 <= i < j < out@.len() implies id_le(
                out@[i],
                out@[j],
            ) by {
                if j < p {
                    assert(out@[i] == old_out[i] && out@[j] == old_out[j]);
                    assert(id_le(old_out[i], old_out[j]));
                } else if j == p {
                    assert(out@[i] == old_out[i]);
                    assert(id_le(old_out[i], x));
                } else {
                    assert(out@[j] == old_out[j - 1]);
                    if i < p {
                        assert(out@[i] == old_out[i]);
                        assert(id_le(old_out[i], old_out[j - 1]));
                    } else if i == p {
                        assert(id_le(x, old_out[j - 1]));
                    } else {
                        assert(out@[i] == old_out[i - 1]);
                        assert(id_le(old_out[i - 1], old_out[j - 1]));
                    }
                }
            }
            assert forall|y: Identity| #[trigger]
                input@.take(k + 1int).contains(y) implies out@.contains(y) by {
                let w = choose|w: int|
                    0 <= w < input@.take(k + 1int).len() && #[trigger] input@.take(k + 1int)[w]
                        == y;
                if w < k {
                    assert(input@.take(k as int).contains(y)) by {
                        assert(input@.take(k as int)[w] == y);
                    }
                    assert(old_out.contains(y));
                    let v = choose|v: int| 0 <= v < old_out.len() && old_out[v] == y;
                    if v < p {
                        assert(out@[v] == y);
                    } else {
                        assert(out@[v + 1] == y);
                    }
                } else {
                    assert(y == x);
                    assert(out@[p as int] == y);
                }
            }
            assert forall|i: int| 0 <= i < out@.len() implies input@.contains(out@[i]) by {
                if i < p {
                    assert(out@[i] == old_out[i]);
                } else if i == p {
                } else {
                    assert(out@[i] == old_out[i - 1]);
                }
            }
        }
        k = k + 1;
    }
    proof {
        assert(input@.take(input@.len() as int) =~= input@);
    }
    out
}

/// In a sorted list, keeps the first entry of each run of one address, so
/// that one entry per address remains and every removed entry keeps a
/// representative with its address.
fn dedup_ids(input: &Vec<Identity>) -> (r: Vec<Identity>)
    requires
        sorted_ids(input@),
    ensures
        strictly_sorted_ids(r@),
        forall|i: int| 0 <= i < r@.len() ==> input@.contains(r@[i]),
        forall|x: Identity| input@.contains(x) ==> exists|i: int|
            0 <= i < r@.len() && addr_eqv(#[trigger] r@[i], x),
{
    let mut out: Vec<Identity> = Vec::new();
    let mut j: usize = 0;
    while j < input.len()
        invariant
            j <= input.len(),
            sorted_ids(input@),
            strictly_sorted_ids(out@),
            forall|i: int| 0 <= i < out@.len() ==> input@.contains(out@[i]),
            forall|x: Identity| input@.take(j as int).contains(x) ==> exists|i: int|
                0 <= i < out@.len() && addr_eqv(#[trigger] out@[i], x),
            out@.len() > 0 ==> exists|k: int|
                0 <= k < j && out@[out@.len() - 1] == #[trigger] input@[k],
        decreases input.len() - j,
    {
        let n = out.len();
        let keep = if n == 0 {
            true
        } else {
            !addr_eqv_exec(&out[n - 1], &input[j])
        };
        let ghost old_out = out@;
        let ghost x = input@[j as int];
        if keep {
            out.push(input[j].clone());
            proof {
                if old_out.len() > 0 {
                    let last = old_out[old_out.len() - 1];
                    let k = choose|k: int| 0 <= k < j && old_out[old_out.len() - 1] == input@[k];
                    assert(id_le(input@[k], input@[j as int]));
                    assert(id_le(last, x));
                    assert forall|i: int, jj: int| 0 <= i < jj < out@.len() implies id_le(
                        out@[i],
                        out@[jj],
                    ) && !addr_eqv(out@[i], out@[jj]) by {
                        if jj < out@.len() - 1 {
                            assert(out@[i] == old_out[i] && out@[jj] == old_out[jj]);
                            assert(id_le(old_out[i], old_out[jj]) && !addr_eqv(
                                old_out[i],
                                old_out[jj],
                            ));
                        } else {
                            let y = out@[i];
                            assert(y == old_out[i]);
                            if i == old_out.len() - 1 {
                                assert(id_le(last, x) && !addr_eqv(last, x));
                            } else {
                                assert(id_le(y, last) && !addr_eqv(y, last));
                                lemma_id_trans(y, last, x);
                                if addr_eqv(y, x) {
                                    lemma_id_le_keys(y, last);
                                    lemma_id_le_keys(last, x);
                                    lemma_lex_mutual(addr_key(y), addr_key(last));
                                    assert(addr_eqv(y, last));
                                    assert(false);
                                }
                            }
                        }
                    }
                }
            }
        }
        proof {
            assert(exists|i: int| 0 <= i < out@.len() && addr_eqv(#[trigger] out@[i], x)) by {
                assert(addr_eqv(out@[out@.len() - 1], x));
            }
            assert forall|y: Identity| #[trigger]
                input@.take(j + 1int).contains(y) implies exists|i: int|
                0 <= i < out@.len() && addr_eqv(#[trigger] out@[i], y) by {
                let w = choose|w: int|
                    0 <= w < input@.take(j + 1int).len() && #[trigger] input@.take(j + 1int)[w]
                        == y;
                if w < j {
                    assert(input@.take(j as int).contains(y)) by {
                        assert(input@.take(j as int)[w] == y);
                    }
                    let i = choose|i: int|
                        0 <= i < old_out.len() && addr_eqv(#[trigger] old_out[i], y);
                    assert(out@[i] == old_out[i]);
                    assert(addr_eqv(out@[i], y));
                } else {
                    assert(y == x);
                }
            }
            if keep {
                assert(out@[out@.len() - 1] == input@[j as int]);
            }
        }
        j = j + 1;
    }
    proof {
        assert(input@.take(input@.len() as int) =~= input@);
    }
    out
}

/// Removes every entry carrying the author's address from a strictly sorted
/// list; every other entry is kept unchanged.
fn filter_author(input: &Vec<Identity>, author: &Identity) -> (r: Vec<Identity>)
    requires
        strictly_sorted_ids(input@),
    ensures
        strictly_sorted_ids(r@),
        forall|i: int| 0 <= i < r@.len() ==> !addr_eqv(r@[i], *author),
        forall|i: int| 0 <= i < r@.len() ==> input@.contains(r@[i]),
        forall|x: Identity| input@.contains(x) && !addr_eqv(x, *author) ==> r@.contains(x),
{
    let mut out: Vec<Identity> = Vec::new();
    let mut j: usize = 0;
    while j < input.len()
        invariant
            j <= input.len(),
            strictly_sorted_ids(input@),
            strictly_sorted_ids(out@),
            forall|i: int| 0 <= i < out@.len() ==> !addr_eqv(out@[i], *author),
            forall|i: int| 0 <= i < out@.len() ==> input@.contains(out@[i]),
            forall|x: Identity|
                input@.take(j as int).contains(x) && !addr_eqv(x, *author) ==> out@.contains(x),
            out@.len() > 0 ==> exists|k: int|
                0 <= k < j && out@[out@.len() - 1] == #[trigger] input@[k],
        decreases input.len() - j,
    {
        let ghost old_out = out@;
        let ghost x = input@[j as int];
        if !addr_eqv_exec(&input[j], author) {
            out.push(input[j].clone());
            proof {
                if old_out.len() > 0 {
                    let last = old_out[old_out.len() - 1];
                    let k = choose|k: int| 0 <= k < j && old_out[old_out.len() - 1] == input@[k];
                    assert(id_le(input@[k], input@[j as int]) && !addr_eqv(
                        input@[k],
                        input@[j as int],
                    ));
                    assert(id_le(last, x) && !addr_eqv(last, x));
                    assert forall|i: int, jj: int| 0 <= i < jj < out@.len() implies id_le(
                        out@[i],
                        out@[jj],
                    ) && !addr_eqv(out@[i], out@[jj]) by {
                        if jj < out@.len() - 1 {
                            assert(out@[i] == old_out[i] && out@[jj] == old_out[jj]);
                            assert(id_le(old_out[i], old_out[jj]) && !addr_eqv(
                                old_out[i],
                                old_out[jj],
                            ));
                        } else {
                            let y = out@[i];
                            assert(y == old_out[i]);
                            if i < old_out.len() - 1 {
                                assert(id_le(y, last) && !addr_eqv(y, last));
                                lemma_id_trans(y, last, x);
                                if addr_eqv(y, x) {
                                    lemma_id_le_keys(y, last);
                                    lemma_id_le_keys(last, x);
                                    lemma_lex_mutual(addr_key(y), addr_key(last));
                                    assert(addr_eqv(y, last));
                                    assert(false);
                                }
                            }
                        }
                    }
                }
                assert(out@[out@.len() - 1] == input@[j as int]);
            }
        }
        proof {
            assert forall|y: Identity|
                #[trigger] input@.take(j + 1int).contains(y) && !addr_eqv(y, *author)
                implies out@.contains(y) by {
                let w = choose|w: int|
                    0 <= w < input@.take(j + 1int).len() && #[trigger] input@.take(j + 1int)[w]
                        == y;
                if w < j {
                    assert(input@.take(j as int).contains(y)) by {
                        assert(input@.take(j as int)[w] == y);
                    }
                    let i = choose|i: int| 0 <= i < old_out.len() && old_out[i] == y;
                    assert(out@[i] == y);
                } else {
                    assert(y == x);
                    assert(out@[out@.len() - 1] == y);
                }
            }
        }
        j = j + 1;
    }
    proof {
        assert(input@.take(input@.len() as int) =~= input@);
    }
    out
}


/// Lifts the stagewise guarantees to the working list: every non-author
/// address of `g` keeps a representative in `kept`, and every kept entry came
/// from `g`.
proof fn lemma_stages(
    g: Seq<Identity>,
    sorted: Seq<Identity>,
    deduped: Seq<Identity>,
    kept: Seq<Identity>,
    author: Identity,
)
    requires
        forall|x: Identity| g.contains(x) ==> sorted.contains(x),
        forall|i: int| 0 <= i < sorted.len() ==> g.contains(#[trigger] sorted[i]),
        forall|x: Identity| sorted.contains(x) ==> exists|i: int|
            0 <= i < deduped.len() && addr_eqv(#[trigger] deduped[i], x),
        forall|i: int| 0 <= i < deduped.len() ==> sorted.contains(#[trigger] deduped[i]),
        forall|x: Identity| deduped.contains(x) && !addr_eqv(x, author) ==> kept.contains(x),
        forall|i: int| 0 <= i < kept.len() ==> deduped.contains(#[trigger] kept[i]),
        forall|i: int| 0 <= i < kept.len() ==> !addr_eqv(#[trigger] kept[i], author),
    ensures
        forall|x: Identity| g.contains(x) && !addr_eqv(x, author) ==> exists|i: int|
            0 <= i < kept.len() && addr_eqv(#[trigger] kept[i], x),
        forall|i: int| 0 <= i < kept.len() ==> g.contains(#[trigger] kept[i]),
{
    assert forall|x: Identity| g.contains(x) && !addr_eqv(x, author) implies exists|i: int|
        0 <= i < kept.len() && addr_eqv(#[trigger] kept[i], x) by {
        assert(sorted.contains(x));
        let i = choose|i: int| 0 <= i < deduped.len() && addr_eqv(#[trigger] deduped[i], x);
        let y = deduped[i];
        assert(!addr_eqv(y, author));
        assert(kept.contains(y));
        let w = choose|w: int| 0 <= w < kept.len() && kept[w] == y;
        assert(addr_eqv(kept[w], x));
    }
    assert forall|i: int| 0 <= i < kept.len() implies g.contains(#[trigger] kept[i]) by {
        assert(deduped.contains(kept[i]));
        let v = choose|v: int| 0 <= v < deduped.len() && deduped[v] == kept[i];
        assert(sorted.contains(deduped[v]));
    }
}


/// Entries drawn from a working list of valid identities are valid.
pub proof fn lemma_recipients_wf(
    r: Seq<Identity>,
    selfid: Identity,
    author: Identity,
    to: Option<Seq<Identity>>,
    cc: Option<Seq<Identity>>,
)
    requires
        forall|i: int| 0 <= i < r.len() ==> gathered(selfid, to, cc).contains(#[trigger] r[i]),
        selfid.wf(),
        to matches Some(t) ==> forall|i: int| 0 <= i < t.len() ==> (#[trigger] t[i]).wf(),
        cc matches Some(c) ==> forall|i: int| 0 <= i < c.len() ==> (#[trigger] c[i]).wf(),
    ensures
        forall|i: int| 0 <= i < r.len() ==> (#[trigger] r[i]).wf(),
{
    let g = gathered(selfid, to, cc);
    assert forall|i: int| 0 <= i < r.len() implies (#[trigger] r[i]).wf() by {
        assert(g.contains(r[i]));
        let w = choose|w: int| 0 <= w < g.len() && g[w] == r[i];
        let tos: Seq<Identity> = match to {
            Option::Some(t) => t,
            Option::None => Seq::empty(),
        };
        let ccs: Seq<Identity> = match cc {
            Option::Some(c) => c,
            Option::None => Seq::empty(),
        };
        if w < 1 {
            assert(g[w] == selfid);
        } else if w < 1 + tos.len() {
            assert(g[w] == tos[w - 1]);
        } else {
            assert(g[w] == ccs[w - 1 - tos.len()]);
        }
    }
}

/// Builds the reply's Cc list: the operator and every To/Cc entry of the
/// original message, in the canonical sorted order, one entry per address,
/// and with every entry carrying the author's address removed.
pub fn build_recipient_set(
    selfid: &Identity,
    author: &Identity,
    to: &Option<Vec<Identity>>,
    cc: &Option<Vec<Identity>>,
) -> (r: Vec<Identity>)
    ensures
        strictly_sorted_ids(r@),
        forall|i: int| 0 <= i < r@.len() ==> !addr_eqv(#[trigger] r@[i], *author),
        forall|i: int|
            0 <= i < r@.len() ==> gathered(*selfid, opt_ids(*to), opt_ids(*cc)).contains(
                #[trigger] r@[i],
            ),
        forall|x: Identity|
            gathered(*selfid, opt_ids(*to), opt_ids(*cc)).contains(x) && !addr_eqv(x, *author)
                ==> exists|i: int| 0 <= i < r@.len() && addr_eqv(#[trigger] r@[i], x),
{
    let ghost g = gathered(*selfid, opt_ids(*to), opt_ids(*cc));
    let mut all: Vec<Identity> = Vec::new();
    all.push(selfid.clone());
    if let Some(t) = to {
        append_ids(&mut all, t);
    }
    if let Some(c) = cc {
        append_ids(&mut all, c);
    }
    proof {
        assert(all@ =~= g);
    }
    let sorted = sort_ids(&all);
    let deduped = dedup_ids(&sorted);
    let kept = filter_author(&deduped, author);
    proof {
        lemma_stages(g, sorted@, deduped@, kept@, *author);
    }
    kept
}

} // verus!
