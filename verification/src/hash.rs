//! Content digests: `sha256:` followed by the hash in hexadecimal.

use vstd::prelude::*;
use vstd::string::*;

use crate::text::{chars, only_hex_digits, strip_prefix};

verus! {

/// What `sha2::Sha256::digest` returns for the given bytes.
pub uninterp spec fn sha256_of(bytes: Seq<u8>) -> Seq<u8>;

/// The lower-case hexadecimal digit that stands for `n`, for `n` below 16.
pub open spec fn nibble(n: int) -> char {
    if n < 10 {
        ('0' as u8 + n) as char
    } else {
        ('a' as u8 + (n - 10)) as char
    }
}

/// Bytes in hexadecimal: two lower-case digits each.
pub open spec fn hex_of(bytes: Seq<u8>) -> Seq<char>
    decreases bytes.len(),
{
    if bytes.len() == 0 {
        Seq::empty()
    } else {
        hex_of(bytes.drop_last()).push(nibble(bytes.last() as int / 16)).push(
            nibble(bytes.last() as int % 16),
        )
    }
}

/// The content digest of `bytes`.
pub open spec fn content_digest(bytes: Seq<u8>) -> Seq<char> {
    "sha256:"@ + hex_of(sha256_of(bytes))
}

/// Whether `s` names a digest scheme that is supported.
pub open spec fn has_scheme(s: Seq<char>) -> bool {
    crate::text::starts_with(s, "sha256:"@)
}

/// What follows the scheme of a digest.
pub open spec fn hex_part(s: Seq<char>) -> Seq<char> {
    s.skip("sha256:"@.len() as int)
}

/// Whether `s` is `sha256:` followed by 64 hexadecimal digits.
pub open spec fn is_digest(s: Seq<char>) -> bool {
    has_scheme(s) && hex_part(s).len() == 64 && crate::text::all_hex_digits(hex_part(s))
}

/// `sha2::Sha256::digest`: the hash of `bytes`, which is 32 bytes long.
#[verifier::external_body]
fn sha256(bytes: &[u8]) -> (h: Vec<u8>)
    ensures
        h@ == sha256_of(bytes@),
        h@.len() == 32,
{
    <sha2::Sha256 as sha2::Digest>::digest(bytes).to_vec()
}

/// `hex::encode`: each byte as two lower-case hexadecimal digits, the higher
/// half first.
#[verifier::external_body]
fn hex_encode(bytes: &[u8]) -> (s: String)
    ensures
        s@ == hex_of(bytes@),
{
    hex::encode(bytes)
}

/// Bytes in hexadecimal are two hexadecimal digits each.
pub proof fn lemma_hex(bytes: Seq<u8>)
    ensures
        hex_of(bytes).len() == 2 * bytes.len(),
        crate::text::all_hex_digits(hex_of(bytes)),
    decreases bytes.len(),
{
    if bytes.len() > 0 {
        lemma_hex(bytes.drop_last());
    }
}

/// The digest with the given hash.
pub fn format_digest(hash: &[u8]) -> (s: String)
    ensures
        s@ == "sha256:"@ + hex_of(hash@),
        hash@.len() == 32 ==> is_digest(s@),
{
    let s: String = "sha256:".to_owned().concat(hex_encode(hash).as_str());
    proof {
        lemma_hex(hash@);
        let p = "sha256:"@;
        assert(s@.take(p.len() as int) =~= p);
        assert(hex_part(s@) =~= hex_of(hash@));
    }
    s
}

/// The content digest of `bytes`.
pub(crate) fn digest_text(bytes: &[u8]) -> (s: String)
    ensures
        s@ == content_digest(bytes@),
        is_digest(s@),
{
    format_digest(sha256(bytes).as_slice())
}

/// How a text fails to be a digest.
#[derive(Debug, Clone, Copy, PartialEq, Eq, Structural)]
pub enum DigestFault {
    /// It does not start with a supported scheme.
    Scheme,
    /// The hash is not 64 hexadecimal digits.
    Hash,
}

/// Executable form of [`hex_part`] on digests; tells what is wrong with a
/// text that is none.
pub(crate) fn digest_hex(s: &str) -> (r: Result<String, DigestFault>)
    ensures
        match r {
            Ok(hex) => is_digest(s@) && hex@ == hex_part(s@),
            Err(DigestFault::Scheme) => !has_scheme(s@),
            Err(DigestFault::Hash) => has_scheme(s@) && !is_digest(s@),
        },
{
    let cs: Vec<char> = chars(s);
    let scheme: Vec<char> = chars("sha256:");
    match strip_prefix(cs.as_slice(), scheme.as_slice()) {
        None => Err(DigestFault::Scheme),
        Some(hex) => {
            if hex.len() != 64 || !only_hex_digits(hex) {
                Err(DigestFault::Hash)
            } else {
                Ok(crate::text::text(hex))
            }
        },
    }
}

proof fn lemma_hex_injective(a: Seq<u8>, b: Seq<u8>)
    requires
        hex_of(a) == hex_of(b),
    ensures
        a == b,
    decreases a.len(),
{
    lemma_hex(a);
    lemma_hex(b);
    if a.len() > 0 {
        let x = a.last() as int;
        let y = b.last() as int;
        let n = hex_of(a).len() as int;
        assert(hex_of(a)[n - 2] == nibble(x / 16) && hex_of(a)[n - 1] == nibble(x % 16));
        assert(hex_of(b)[n - 2] == nibble(y / 16) && hex_of(b)[n - 1] == nibble(y % 16));
        assert(x / 16 == y / 16 && x % 16 == y % 16);
        assert(hex_of(a).take(n - 2) =~= hex_of(a.drop_last()));
        assert(hex_of(b).take(n - 2) =~= hex_of(b.drop_last()));
        lemma_hex_injective(a.drop_last(), b.drop_last());
        assert(a =~= a.drop_last().push(a.last()));
        assert(b =~= b.drop_last().push(b.last()));
    } else {
        assert(a =~= b);
    }
}

/// Two contents have the same digest exactly when they have the same hash:
/// nothing is lost in writing a hash out.
pub proof fn law_digests_agree_with_hashes(a: Seq<u8>, b: Seq<u8>)
    ensures
        (content_digest(a) == content_digest(b)) == (sha256_of(a) == sha256_of(b)),
{
    if content_digest(a) == content_digest(b) {
        let p = "sha256:"@;
        assert(content_digest(a).skip(p.len() as int) =~= hex_of(sha256_of(a)));
        assert(content_digest(b).skip(p.len() as int) =~= hex_of(sha256_of(b)));
        lemma_hex_injective(sha256_of(a), sha256_of(b));
    }
}

/// A digest is `sha256:` and 64 hexadecimal digits, in either case.
pub proof fn law_digests_have_their_form(s: Seq<char>)
    ensures
        is_digest(s) <==> s.len() == 71 && s.take(7) == "sha256:"@ && forall|i: int|
            7 <= i < 71 ==> '0' <= #[trigger] s[i] <= '9' || 'a' <= s[i] <= 'f' || 'A' <= s[i]
                <= 'F',
        is_digest(s) ==> hex_part(s) == s.skip(7),
{
    reveal_strlit("sha256:");
    let hex = s.skip(7);
    if is_digest(s) {
        assert forall|i: int| 7 <= i < 71 implies '0' <= #[trigger] s[i] <= '9' || 'a' <= s[i]
            <= 'f' || 'A' <= s[i] <= 'F' by {
            assert(hex[i - 7] == s[i]);
            assert(crate::text::is_hex_digit(hex[i - 7]));
        }
    }
    if s.len() == 71 && s.take(7) == "sha256:"@ && forall|i: int|
        7 <= i < 71 ==> '0' <= #[trigger] s[i] <= '9' || 'a' <= s[i] <= 'f' || 'A' <= s[i]
            <= 'F' {
        assert forall|i: int| 0 <= i < hex.len() implies crate::text::is_hex_digit(
            #[trigger] hex[i],
        ) by {
            assert(hex[i] == s[i + 7]);
        }
    }
}

/// Bytes are written in hexadecimal one after the other, each as the digit of
/// its higher half and the digit of its lower half.
pub proof fn law_hexadecimal_notation(a: Seq<u8>, b: Seq<u8>, byte: u8)
    ensures
        hex_of(a + b) == hex_of(a) + hex_of(b),
        hex_of(seq![byte]) == seq![
            "0123456789abcdef"@[byte as int / 16],
            "0123456789abcdef"@[byte as int % 16],
        ],
    decreases b.len(),
{
    reveal_strlit("0123456789abcdef");
    reveal_with_fuel(hex_of, 2);
    assert(seq![byte].drop_last() =~= Seq::<u8>::empty());
    assert(seq![byte].last() == byte);
    let h = byte as int / 16;
    let l = byte as int % 16;
    assert(0 <= h < 16 && 0 <= l < 16);
    assert("0123456789abcdef"@[h] == nibble(h));
    assert("0123456789abcdef"@[l] == nibble(l));
    assert(hex_of(seq![byte]) =~= seq![nibble(h), nibble(l)]);
    if b.len() == 0 {
        assert(a + b =~= a);
        assert(hex_of(a) + hex_of(b) =~= hex_of(a));
    } else {
        let init = b.drop_last();
        law_hexadecimal_notation(a, init, byte);
        assert((a + b).drop_last() =~= a + init);
        assert((a + b).last() == b.last());
        assert(hex_of(a + b) =~= hex_of(a) + hex_of(b));
    }
}

/// A content digest is the scheme and the hash in hexadecimal.
pub proof fn law_content_digest_writes_the_hash_out(bytes: Seq<u8>)
    ensures
        content_digest(bytes).take(7) == "sha256:"@,
        content_digest(bytes).skip(7) == hex_of(sha256_of(bytes)),
        has_scheme(content_digest(bytes)),
        hex_part(content_digest(bytes)) == hex_of(sha256_of(bytes)),
        sha256_of(bytes).len() == 32 ==> is_digest(content_digest(bytes)),
{
    reveal_strlit("sha256:");
    lemma_hex(sha256_of(bytes));
    assert(content_digest(bytes).take(7) =~= "sha256:"@);
    assert(content_digest(bytes).skip(7) =~= hex_of(sha256_of(bytes)));
}

} // verus!
