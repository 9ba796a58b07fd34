//! SHA-256 digests and their hexadecimal rendering.

use sha2::{Digest, Sha256};
use vstd::prelude::*;
use vstd::string::*;

verus! {

/// The SHA-256 digest of a byte sequence.
pub uninterp spec fn sha256(data: Seq<u8>) -> Seq<u8>;

/// Computes the SHA-256 digest of `data` with `Sha256::digest` of the `sha2`
/// crate. The contract names the result after the input alone and states the
/// digest's fixed size of 32 bytes; it is taken on trust.
#[verifier::external_body]
fn sha256_digest(data: &[u8]) -> (digest: Vec<u8>)
    ensures
        digest@ == sha256(data@),
        digest@.len() == 32,
{
    Sha256::digest(data).to_vec()
}

/// The lower-case hexadecimal digit for a value below sixteen.
pub open spec fn hex_digit(v: nat) -> char {
    if v == 0 {
        '0'
    } else if v == 1 {
        '1'
    } else if v == 2 {
        '2'
    } else if v == 3 {
        '3'
    } else if v == 4 {
        '4'
    } else if v == 5 {
        '5'
    } else if v == 6 {
        '6'
    } else if v == 7 {
        '7'
    } else if v == 8 {
        '8'
    } else if v == 9 {
        '9'
    } else if v == 10 {
        'a'
    } else if v == 11 {
        'b'
    } else if v == 12 {
        'c'
    } else if v == 13 {
        'd'
    } else if v == 14 {
        'e'
    } else {
        'f'
    }
}

/// Two lower-case hexadecimal digits for every byte, high digit first.
pub open spec fn hex_text(bytes: Seq<u8>) -> Seq<char>
    decreases bytes.len(),
{
    if bytes.len() == 0 {
        Seq::empty()
    } else {
        hex_text(bytes.drop_last()).push(hex_digit((bytes.last() / 16) as nat)).push(
            hex_digit((bytes.last() % 16) as nat),
        )
    }
}

/// The hexadecimal rendering has two characters for each byte.
pub proof fn lemma_hex_text_len(bytes: Seq<u8>)
    ensures
        hex_text(bytes).len() == 2 * bytes.len(),
    decreases bytes.len(),
{
    if bytes.len() > 0 {
        lemma_hex_text_len(bytes.drop_last());
    }
}

fn hex_digit_str(v: u8) -> (s: &'static str)
    requires
        v < 16,
    ensures
        s@ == seq![hex_digit(v as nat)],
{
    proof {
        reveal_strlit("0");
        reveal_strlit("1");
        reveal_strlit("2");
        reveal_strlit("3");
        reveal_strlit("4");
        reveal_strlit("5");
        reveal_strlit("6");
        reveal_strlit("7");
        reveal_strlit("8");
        reveal_strlit("9");
        reveal_strlit("a");
        reveal_strlit("b");
        reveal_strlit("c");
        reveal_strlit("d");
        reveal_strlit("e");
        reveal_strlit("f");
    }
    let s = if v == 0 {
        "0"
    } else if v == 1 {
        "1"
    } else if v == 2 {
        "2"
    } else if v == 3 {
        "3"
    } else if v == 4 {
        "4"
    } else if v == 5 {
        "5"
    } else if v == 6 {
        "6"
    } else if v == 7 {
        "7"
    } else if v == 8 {
        "8"
    } else if v == 9 {
        "9"
    } else if v == 10 {
        "a"
    } else if v == 11 {
        "b"
    } else if v == 12 {
        "c"
    } else if v == 13 {
        "d"
    } else if v == 14 {
        "e"
    } else {
        "f"
    };
    assert(s@ =~= seq![hex_digit(v as nat)]);
    s
}

/// Renders bytes as lower-case hexadecimal text.
pub fn hex_encode(bytes: &[u8]) -> (text: String)
    ensures
        text@ == hex_text(bytes@),
{
    let mut text = String::new();
    let mut i: usize = 0;
    while i < bytes.len()
        invariant
            i <= bytes@.len(),
            text@ == hex_text(bytes@.take(i as int)),
        decreases bytes@.len() - i,
    {
        let byte = bytes[i];
        proof {
            assert(bytes@.take(i + 1).drop_last() =~= bytes@.take(i as int));
            assert(bytes@.take(i + 1).last() == byte);
        }
        text.append(hex_digit_str(byte / 16));
        text.append(hex_digit_str(byte % 16));
        i += 1;
        assert(text@ =~= hex_text(bytes@.take(i as int)));
    }
    assert(bytes@.take(i as int) =~= bytes@);
    text
}

/// The SHA-256 digest of the UTF-8 bytes of `text`, in hexadecimal.
pub open spec fn sha256_hex_of_text(text: Seq<char>) -> Seq<char> {
    hex_text(sha256(vstd::utf8::encode_utf8(text)))
}

/// Hashes the UTF-8 bytes of `text` with SHA-256 and renders the digest as
/// 64 lower-case hexadecimal characters.
pub fn sha256_hex(text: &str) -> (hash: String)
    ensures
        hash@ == sha256_hex_of_text(text@),
        hash@.len() == 64,
{
    let digest = sha256_digest(text.as_bytes());
    proof {
        lemma_hex_text_len(digest@);
    }
    hex_encode(digest.as_slice())
}

} // verus!
