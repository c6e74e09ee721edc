//! Identities (display name plus address), address validation, and the
//! case-insensitive total order that the recipient set is sorted by.

use std::str::FromStr;
use vstd::prelude::*;

verus! {

/// Whether a string satisfies the addr-spec syntax that the address parser
/// accepts. Validity depends on the characters of the string alone.
pub uninterp spec fn is_valid_addr(s: Seq<char>) -> bool;

#[verifier::external_type_specification]
#[verifier::external_body]
pub struct ExAddress(lettre::Address);

#[verifier::external_type_specification]
#[verifier::external_body]
pub struct ExAddressError(lettre::address::AddressError);

/// Relies on `lettre::Address::from_str`: it returns `Ok` exactly when the
/// string is a syntactically valid `user@domain` address, and its verdict is a
/// function of the string alone.
#[verifier::external_body]
pub(crate) fn parse_address(s: &str) -> (r: Result<
    lettre::Address,
    lettre::address::AddressError,
>)
    ensures
        (r is Ok) == is_valid_addr(s@),
{
    lettre::Address::from_str(s)
}

/// A mail participant: an optional display name and an address.
#[derive(Debug)]
pub struct Identity {
    pub name: Option<String>,
    pub addr: String,
}

impl Identity {
    /// The address is syntactically valid.
    pub open spec fn wf(self) -> bool {
        is_valid_addr(self.addr@)
    }
}

impl Clone for Identity {
    fn clone(&self) -> (r: Self)
        ensures
            r == *self,
    {
        Identity {
            name: match &self.name {
                Some(n) => Some(n.clone()),
                None => None,
            },
            addr: self.addr.clone(),
        }
    }
}

/// Case-folded code point: ASCII uppercase letters map to their lowercase
/// counterpart, every other character is kept.
pub open spec fn fold_char(c: char) -> u32 {
    if 65 <= c as u32 && c as u32 <= 90 {
        (c as u32 + 32) as u32
    } else {
        c as u32
    }
}

/// A string case-folded to a sequence of code points.
pub open spec fn fold_seq(s: Seq<char>) -> Seq<u32> {
    s.map_values(|c: char| fold_char(c))
}

/// Lexicographic "less or equal" over code-point sequences, read from
/// position `i` on: a sequence precedes its extensions, otherwise the first
/// differing position decides.
pub open spec fn lex_le_from(a: Seq<u32>, b: Seq<u32>, i: int) -> bool
    decreases a.len() - i,
{
    if i >= a.len() {
        true
    } else if i >= b.len() {
        false
    } else if a[i] < b[i] {
        true
    } else if a[i] > b[i] {
        false
    } else {
        lex_le_from(a, b, i + 1)
    }
}

/// Lexicographic "less or equal" over whole code-point sequences.
pub open spec fn lex_le(a: Seq<u32>, b: Seq<u32>) -> bool {
    lex_le_from(a, b, 0)
}

/// The primary sort key of an identity: its case-folded address.
pub open spec fn addr_key(a: Identity) -> Seq<u32> {
    fold_seq(a.addr@)
}

/// The secondary comparison: display names, case-folded, an absent name
/// preceding every present one.
pub open spec fn name_key_le(a: Identity, b: Identity) -> bool {
    match (a.name, b.name) {
        (Option::None, _) => true,
        (Option::Some(x), Option::None) => false,
        (Option::Some(x), Option::Some(y)) => lex_le(fold_seq(x@), fold_seq(y@)),
    }
}

/// The total order on identities: address as primary key, display name as
/// secondary key, both case-insensitive.
pub open spec fn id_le(a: Identity, b: Identity) -> bool {
    if addr_key(a) == addr_key(b) {
        name_key_le(a, b)
    } else {
        lex_le(addr_key(a), addr_key(b))
    }
}

/// Two identities carry the same address, case-insensitively. Deduplication
/// and the author's exclusion both go by this, not by the display name.
pub open spec fn addr_eqv(a: Identity, b: Identity) -> bool {
    addr_key(a) == addr_key(b)
}

pub proof fn lemma_lex_refl(a: Seq<u32>, i: int)
    ensures
        lex_le_from(a, a, i),
    decreases a.len() - i,
{
    if i < a.len() {
        lemma_lex_refl(a, i + 1);
    }
}

pub proof fn lemma_lex_total(a: Seq<u32>, b: Seq<u32>, i: int)
    ensures
        lex_le_from(a, b, i) || lex_le_from(b, a, i),
    decreases a.len() - i,
{
    if i < a.len() && i < b.len() && a[i] == b[i] {
        lemma_lex_total(a, b, i + 1);
    }
}

proof fn lemma_lex_mutual_from(a: Seq<u32>, b: Seq<u32>, i: int)
    requires
        0 <= i <= a.len(),
        0 <= i <= b.len(),
        lex_le_from(a, b, i),
        lex_le_from(b, a, i),
    ensures
        a.len() == b.len(),
        forall|j: int| i <= j < a.len() ==> a[j] == b[j],
    decreases a.len() - i,
{
    if i < a.len() || i < b.len() {
        lemma_lex_mutual_from(a, b, i + 1);
    }
}

/// Mutually related sequences are equal: the order is antisymmetric.
pub proof fn lemma_lex_mutual(a: Seq<u32>, b: Seq<u32>)
    requires
        lex_le(a, b),
        lex_le(b, a),
    ensures
        a == b,
{
    lemma_lex_mutual_from(a, b, 0);
    assert(a =~= b);
}

pub proof fn lemma_lex_trans(a: Seq<u32>, b: Seq<u32>, c: Seq<u32>, i: int)
    requires
        lex_le_from(a, b, i),
        lex_le_from(b, c, i),
    ensures
        lex_le_from(a, c, i),
    decreases a.len() - i,
{
    if i < a.len() && i < c.len() {
        if i < b.len() {
            if a[i] == b[i] && b[i] == c[i] {
                lemma_lex_trans(a, b, c, i + 1);
            }
        }
    }
}

/// The identity order relates every pair one way or the other.
pub proof fn lemma_id_total(a: Identity, b: Identity)
    ensures
        id_le(a, b) || id_le(b, a),
{
    if addr_key(a) == addr_key(b) {
        match (a.name, b.name) {
            (Option::Some(x), Option::Some(y)) => {
                lemma_lex_total(fold_seq(x@), fold_seq(y@), 0);
            },
            _ => {},
        }
    } else {
        lemma_lex_total(addr_key(a), addr_key(b), 0);
    }
}

/// The secondary comparison is transitive.
proof fn lemma_name_trans(a: Identity, b: Identity, c: Identity)
    requires
        name_key_le(a, b),
        name_key_le(b, c),
    ensures
        name_key_le(a, c),
{
    match (a.name, b.name, c.name) {
        (Option::Some(x), Option::Some(y), Option::Some(z)) => {
            lemma_lex_trans(fold_seq(x@), fold_seq(y@), fold_seq(z@), 0);
        },
        _ => {},
    }
}

/// The identity order is transitive.
pub proof fn lemma_id_trans(a: Identity, b: Identity, c: Identity)
    requires
        id_le(a, b),
        id_le(b, c),
    ensures
        id_le(a, c),
{
    let ka = addr_key(a);
    let kb = addr_key(b);
    let kc = addr_key(c);
    if ka == kb && kb == kc {
        lemma_name_trans(a, b, c);
    } else if ka == kb {
        // id_le(a, c) goes by the address keys, which compare as kb vs kc.
    } else if kb == kc {
        // id_le(a, c) goes by the address keys, which compare as ka vs kb.
    } else {
        lemma_lex_trans(ka, kb, kc, 0);
        if ka == kc {
            lemma_lex_mutual(kb, kc);
        }
    }
}

/// Case-folds one character's code point.
fn fold_code(c: char) -> (r: u32)
    ensures
        r == fold_char(c),
{
    let u = c as u32;
    if 65 <= u && u <= 90 {
        u + 32
    } else {
        u
    }
}

/// Compares two strings case-insensitively, lexicographically.
fn str_fold_le(a: &str, b: &str) -> (r: bool)
    ensures
        r == lex_le(fold_seq(a@), fold_seq(b@)),
{
    let alen = a.unicode_len();
    let blen = b.unicode_len();
    let mut i: usize = 0;
    loop
        invariant
            i <= alen,
            i <= blen,
            alen == a@.len(),
            blen == b@.len(),
            lex_le(fold_seq(a@), fold_seq(b@)) == lex_le_from(
                fold_seq(a@),
                fold_seq(b@),
                i as int,
            ),
        decreases alen - i,
    {
        if i >= alen {
            return true;
        }
        if i >= blen {
            return false;
        }
        let ca = fold_code(a.get_char(i));
        let cb = fold_code(b.get_char(i));
        if ca < cb {
            return true;
        }
        if ca > cb {
            return false;
        }
        i = i + 1;
    }
}

/// Decides the identity order: address first, display name second, both
/// case-insensitively.
pub fn id_le_exec(a: &Identity, b: &Identity) -> (r: bool)
    ensures
        r == id_le(*a, *b),
{
    let ab = str_fold_le(a.addr.as_str(), b.addr.as_str());
    let ba = str_fold_le(b.addr.as_str(), a.addr.as_str());
    if ab && ba {
        proof {
            lemma_lex_mutual(addr_key(*a), addr_key(*b));
        }
        match (&a.name, &b.name) {
            (Option::None, _) => true,
            (Option::Some(_), Option::None) => false,
            (Option::Some(x), Option::Some(y)) => str_fold_le(x.as_str(), y.as_str()),
        }
    } else {
        proof {
            if addr_key(*a) == addr_key(*b) {
                lemma_lex_refl(addr_key(*a), 0);
            }
        }
        ab
    }
}

/// Decides address equivalence.
pub fn addr_eqv_exec(a: &Identity, b: &Identity) -> (r: bool)
    ensures
        r == addr_eqv(*a, *b),
{
    let ab = str_fold_le(a.addr.as_str(), b.addr.as_str());
    let ba = str_fold_le(b.addr.as_str(), a.addr.as_str());
    proof {
        if ab && ba {
            lemma_lex_mutual(addr_key(*a), addr_key(*b));
        }
        if addr_key(*a) == addr_key(*b) {
            lemma_lex_refl(addr_key(*a), 0);
        }
    }
    ab && ba
}

/// The order is monotone in the address key.
pub proof fn lemma_id_le_keys(a: Identity, b: Identity)
    requires
        id_le(a, b),
    ensures
        lex_le(addr_key(a), addr_key(b)),
{
    if addr_key(a) == addr_key(b) {
        lemma_lex_refl(addr_key(a), 0);
    }
}

/// Clones an optional display name.
pub(crate) fn clone_opt_string(o: &Option<String>) -> (r: Option<String>)
    ensures
        r == *o,
{
    match o {
        Option::Some(s) => Option::Some(s.clone()),
        Option::None => Option::None,
    }
}

} // verus!
