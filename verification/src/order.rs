//! The order in which identities are kept: by email address, comparing the
//! UTF-8 bytes of the addresses lexicographically.

use vstd::prelude::*;
use vstd::utf8::encode_utf8;

verus! {

/// Lexicographic comparison of `a` and `b` from position `from` on, given
/// that they agree before it: `a` is not after `b`.
pub open spec fn bytes_le_from(a: Seq<u8>, b: Seq<u8>, from: int) -> bool
    decreases a.len() - from,
{
    if from < 0 || from >= a.len() {
        true
    } else if from >= b.len() {
        false
    } else if a[from] != b[from] {
        a[from] < b[from]
    } else {
        bytes_le_from(a, b, from + 1)
    }
}

/// `a` comes before `b` in lexicographic order, or equals it.
pub open spec fn bytes_le(a: Seq<u8>, b: Seq<u8>) -> bool {
    bytes_le_from(a, b, 0)
}

/// The email address `a` is not after the email address `b`.
pub open spec fn email_le(a: Seq<char>, b: Seq<char>) -> bool {
    bytes_le(encode_utf8(a), encode_utf8(b))
}

proof fn lemma_le_from_reflexive(a: Seq<u8>, from: int)
    ensures
        bytes_le_from(a, a, from),
    decreases a.len() - from,
{
    if 0 <= from < a.len() {
        lemma_le_from_reflexive(a, from + 1);
    }
}

proof fn lemma_le_from_total(a: Seq<u8>, b: Seq<u8>, from: int)
    ensures
        bytes_le_from(a, b, from) || bytes_le_from(b, a, from),
    decreases a.len() - from,
{
    if 0 <= from < a.len() && from < b.len() && a[from] == b[from] {
        lemma_le_from_total(a, b, from + 1);
    }
}

proof fn lemma_le_from_transitive(a: Seq<u8>, b: Seq<u8>, c: Seq<u8>, from: int)
    requires
        bytes_le_from(a, b, from),
        bytes_le_from(b, c, from),
    ensures
        bytes_le_from(a, c, from),
    decreases a.len() - from,
{
    if 0 <= from < a.len() && a[from] == b[from] && b[from] == c[from] {
        lemma_le_from_transitive(a, b, c, from + 1);
    }
}

proof fn lemma_le_from_antisymmetric(a: Seq<u8>, b: Seq<u8>, from: int)
    requires
        0 <= from <= a.len(),
        from <= b.len(),
        bytes_le_from(a, b, from),
        bytes_le_from(b, a, from),
    ensures
        a.len() == b.len(),
        forall|i: int| from <= i < a.len() ==> a[i] == b[i],
    decreases a.len() - from,
{
    if from < a.len() {
        lemma_le_from_antisymmetric(a, b, from + 1);
    }
}

/// Every email address is not after itself.
pub proof fn lemma_email_le_reflexive(a: Seq<char>)
    ensures
        email_le(a, a),
{
    lemma_le_from_reflexive(encode_utf8(a), 0);
}

/// Of two email addresses, one is not after the other.
pub proof fn lemma_email_le_total(a: Seq<char>, b: Seq<char>)
    ensures
        email_le(a, b) || email_le(b, a),
{
    lemma_le_from_total(encode_utf8(a), encode_utf8(b), 0);
}

/// The order of email addresses is transitive.
pub proof fn lemma_email_le_transitive(a: Seq<char>, b: Seq<char>, c: Seq<char>)
    requires
        email_le(a, b),
        email_le(b, c),
    ensures
        email_le(a, c),
{
    lemma_le_from_transitive(encode_utf8(a), encode_utf8(b), encode_utf8(c), 0);
}

/// Two email addresses of which neither is after the other are the same:
/// the order leaves no two addresses tied.
pub proof fn lemma_email_le_antisymmetric(a: Seq<char>, b: Seq<char>)
    requires
        email_le(a, b),
        email_le(b, a),
    ensures
        a == b,
{
    lemma_le_from_antisymmetric(encode_utf8(a), encode_utf8(b), 0);
    assert(encode_utf8(a) =~= encode_utf8(b));
    vstd::utf8::encode_utf8_decode_utf8(a);
    vstd::utf8::encode_utf8_decode_utf8(b);
}

/// Decides whether the email address `a` is not after the email address `b`.
pub fn email_not_after(a: &str, b: &str) -> (le: bool)
    ensures
        le == email_le(a@, b@),
{
    let x = a.as_bytes();
    let y = b.as_bytes();
    let mut i: usize = 0;
    while i < x.len() && i < y.len() && x[i] == y[i]
        invariant
            i <= x.len(),
            i <= y.len(),
            bytes_le(x@, y@) == bytes_le_from(x@, y@, i as int),
        decreases x.len() - i,
    {
        i += 1;
    }
    if i >= x.len() {
        true
    } else if i >= y.len() {
        false
    } else {
        x[i] < y[i]
    }
}

} // verus!
