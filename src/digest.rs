//! SHA-256 digests rendered as lower-case hexadecimal text.
use vstd::prelude::*;

verus! {

/// The SHA-256 digest of a byte sequence.
pub uninterp spec fn sha256_of(data: Seq<u8>) -> Seq<u8>;

/// The lower-case hexadecimal digit of a value below 16.
pub open spec fn hex_digit(n: u8) -> char {
    seq!['0', '1', '2', '3', '4', '5', '6', '7', '8', '9', 'a', 'b', 'c', 'd', 'e', 'f'][n as int]
}

/// `c` is a lower-case hexadecimal digit.
pub open spec fn is_hex_digit(c: char) -> bool {
    ('0' <= c && c <= '9') || ('a' <= c && c <= 'f')
}

/// Two lower-case hexadecimal digits per byte, the high half first.
pub open spec fn hex_chars(data: Seq<u8>) -> Seq<char>
    decreases data.len(),
{
    if data.len() == 0 {
        seq![]
    } else {
        seq![hex_digit(data[0] / 16), hex_digit(data[0] % 16)] + hex_chars(data.drop_first())
    }
}

/// The digest text of a byte sequence: its SHA-256 digest in hexadecimal.
pub open spec fn digest_text(data: Seq<u8>) -> Seq<char> {
    hex_chars(sha256_of(data))
}

/// Relies on `sha2::Sha256::digest`: the 32-byte SHA-256 digest of the input,
/// which depends on the input alone.
#[verifier::external_body]
fn sha256(data: &[u8]) -> (r: Vec<u8>)
    ensures
        r@ == sha256_of(data@),
        r@.len() == 32,
{
    <sha2::Sha256 as sha2::Digest>::digest(data).to_vec()
}

/// Relies on `hex::encode`: each byte becomes two digits of "0123456789abcdef",
/// the high half first.
#[verifier::external_body]
fn hex_encode(data: &[u8]) -> (r: String)
    ensures
        r@ == hex_chars(data@),
{
    hex::encode(data)
}

/// Hexadecimal text is twice as long as its bytes and holds lower-case
/// hexadecimal digits only, which are ASCII.
pub proof fn lemma_hex_chars(data: Seq<u8>)
    ensures
        hex_chars(data).len() == 2 * data.len(),
        vstd::utf8::is_ascii_chars(hex_chars(data)),
        forall|i: int| 0 <= i < hex_chars(data).len() ==> is_hex_digit(#[trigger] hex_chars(data)[i]),
    decreases data.len(),
{
    if data.len() > 0 {
        lemma_hex_chars(data.drop_first());
        let h = hex_chars(data);
        let t = hex_chars(data.drop_first());
        let d = seq!['0', '1', '2', '3', '4', '5', '6', '7', '8', '9', 'a', 'b', 'c', 'd', 'e', 'f'];
        assert(forall|i: int| 0 <= i < 16 ==> '\0' <= #[trigger] d[i] <= '\u{7f}' && is_hex_digit(d[i]));
        assert(h =~= seq![hex_digit(data[0] / 16), hex_digit(data[0] % 16)] + t);
        assert forall|i: int| 0 <= i < h.len() implies '\0' <= #[trigger] h[i] <= '\u{7f}' && is_hex_digit(h[i]) by {
            if i >= 2 {
                assert(h[i] == t[i - 2]);
            }
        }
    }
}

/// Computes the digest text of `data`.
pub fn digest_of_bytes(data: &[u8]) -> (r: String)
    ensures
        r@ == digest_text(data@),
        r@.len() == 64,
        vstd::utf8::is_ascii_chars(r@),
        forall|i: int| 0 <= i < 64 ==> is_hex_digit(#[trigger] r@[i]),
{
    let d = sha256(data);
    let r = hex_encode(d.as_slice());
    proof {
        lemma_hex_chars(d@);
    }
    r
}

} // verus!
