//! Upper-case hexadecimal text, the form in which salts and derived keys are stored.
use vstd::prelude::*;

verus! {

/// The sixteen digits of upper-case hexadecimal, in order of value.
pub open spec fn hex_digits() -> Seq<char> {
    seq!['0', '1', '2', '3', '4', '5', '6', '7', '8', '9', 'A', 'B', 'C', 'D', 'E', 'F']
}

/// The two digits that stand for one byte, high nibble first.
pub open spec fn hex_pair(b: u8) -> Seq<char> {
    seq![hex_digits()[(b / 16) as int], hex_digits()[(b % 16) as int]]
}

/// Upper-case hexadecimal text of a byte string.
pub open spec fn hex_upper(bytes: Seq<u8>) -> Seq<char>
    decreases bytes.len(),
{
    if bytes.len() == 0 {
        Seq::empty()
    } else {
        hex_pair(bytes[0]) + hex_upper(bytes.drop_first())
    }
}

/// Text that is well-formed upper-case hexadecimal: an even number of digits, each one of
/// `0-9` or `A-F`.
pub open spec fn is_hex_upper(s: Seq<char>) -> bool {
    &&& s.len() % 2 == 0
    &&& forall|i: int| 0 <= i < s.len() ==> #[trigger] hex_digits().contains(s[i])
}

/// The bytes that a well-formed hexadecimal text stands for.
pub open spec fn unhex(s: Seq<char>) -> Seq<u8> {
    choose|b: Seq<u8>| hex_upper(b) == s
}

/// Relies on `data_encoding::HEXUPPER.encode`: two upper-case digits per byte, high nibble first.
/// It asserts that the input holds at most `usize::MAX / 512` bytes.
#[verifier::external_body]
pub(crate) fn hex_encode(bytes: &[u8]) -> (r: String)
    requires
        bytes@.len() <= usize::MAX / 512,
    ensures
        r@ == hex_upper(bytes@),
{
    data_encoding::HEXUPPER.encode(bytes)
}

/// Relies on `data_encoding::HEXUPPER.decode`: it accepts exactly the texts of even length
/// made of the digits `0-9A-F`, and returns the bytes whose encoding is that text. It asserts
/// that the input holds at most `usize::MAX / 8` bytes, which a text of at most
/// `usize::MAX / 32` characters (four bytes each at most in UTF-8) respects.
#[verifier::external_body]
pub(crate) fn hex_decode(s: &str) -> (r: Option<Vec<u8>>)
    requires
        s@.len() <= usize::MAX / 32,
    ensures
        r is Some <==> is_hex_upper(s@),
        r is Some ==> hex_upper(r->0@) == s@,
{
    data_encoding::HEXUPPER.decode(s.as_bytes()).ok()
}

pub proof fn lemma_hex_upper_len(b: Seq<u8>)
    ensures
        hex_upper(b).len() == 2 * b.len(),
    decreases b.len(),
{
    if b.len() > 0 {
        lemma_hex_upper_len(b.drop_first());
    }
}

proof fn lemma_hex_pair_injective(x: u8, y: u8)
    requires
        hex_pair(x) == hex_pair(y),
    ensures
        x == y,
{
    assert(hex_pair(x)[0] == hex_pair(y)[0]);
    assert(hex_pair(x)[1] == hex_pair(y)[1]);
    assert(x / 16 == y / 16);
    assert(x % 16 == y % 16);
}

/// Two byte strings with the same hexadecimal text are equal.
pub proof fn lemma_hex_upper_injective(a: Seq<u8>, b: Seq<u8>)
    requires
        hex_upper(a) == hex_upper(b),
    ensures
        a == b,
    decreases a.len(),
{
    lemma_hex_upper_len(a);
    lemma_hex_upper_len(b);
    if a.len() > 0 {
        let ha = hex_upper(a);
        let hb = hex_upper(b);
        assert(hex_pair(a[0]) =~= ha.subrange(0, 2));
        assert(hex_pair(b[0]) =~= hb.subrange(0, 2));
        lemma_hex_pair_injective(a[0], b[0]);
        assert(hex_upper(a.drop_first()) =~= ha.subrange(2, ha.len() as int));
        assert(hex_upper(b.drop_first()) =~= hb.subrange(2, hb.len() as int));
        lemma_hex_upper_injective(a.drop_first(), b.drop_first());
        assert(a =~= seq![a[0]] + a.drop_first());
        assert(b =~= seq![b[0]] + b.drop_first());
    }
}

/// The text of any byte string is well-formed hexadecimal.
pub proof fn lemma_hex_upper_well_formed(b: Seq<u8>)
    ensures
        is_hex_upper(hex_upper(b)),
    decreases b.len(),
{
    lemma_hex_upper_len(b);
    if b.len() > 0 {
        let rest = b.drop_first();
        lemma_hex_upper_well_formed(rest);
        let h = hex_upper(b);
        let p = hex_pair(b[0]);
        assert forall|i: int| 0 <= i < h.len() implies #[trigger] hex_digits().contains(h[i]) by {
            if i < 2 {
                assert(h[i] == p[i]);
                let d: int = if i == 0 { (b[0] / 16) as int } else { (b[0] % 16) as int };
                assert(hex_digits()[d] == h[i]);
            } else {
                assert(h[i] == hex_upper(rest)[i - 2]);
            }
        }
    }
}

/// Decoding recovers the bytes that were encoded.
pub proof fn lemma_unhex_hex_upper(b: Seq<u8>)
    ensures
        unhex(hex_upper(b)) == b,
{
    let s = hex_upper(b);
    assert(exists|x: Seq<u8>| hex_upper(x) == s);
    lemma_hex_upper_injective(unhex(s), b);
}

} // verus!
