//! Short texts that stand for long ones.
use sha2::{Digest, Sha256};
use vstd::prelude::*;
use vstd::utf8::{encode_utf8, is_ascii_chars, is_ascii_chars_encode_utf8};

verus! {

/// The SHA-256 hash of some bytes.
pub uninterp spec fn sha256(data: Seq<u8>) -> Seq<u8>;

/// Calls `sha2::Sha256::digest`. Believed of it: the hash depends on the bytes
/// alone, and is as long as SHA-256 hashes are.
#[verifier::external_body]
fn sha256_digest(data: &[u8]) -> (r: Vec<u8>)
    ensures
        r@ == sha256(data@),
        r@.len() == 32,
{
    Sha256::digest(data).to_vec()
}

/// The digit for a number below sixteen.
pub open spec fn hex_digit(n: int) -> char {
    if n < 10 {
        (48 + n) as char
    } else {
        (87 + n) as char
    }
}

/// The bytes in hexadecimal, two small digits each.
pub open spec fn hex(bytes: Seq<u8>) -> Seq<char>
    decreases bytes.len(),
{
    if bytes.len() == 0 {
        Seq::empty()
    } else {
        hex(bytes.drop_last()) + seq![hex_digit(bytes.last() as int / 16)] + seq![
            hex_digit(bytes.last() as int % 16),
        ]
    }
}

/// The hexadecimal form of `bytes` has two characters for each.
pub proof fn hex_len(bytes: Seq<u8>)
    ensures
        hex(bytes).len() == 2 * bytes.len(),
    decreases bytes.len(),
{
    if bytes.len() > 0 {
        hex_len(bytes.drop_last());
    }
}

/// The hexadecimal form of `bytes` takes one byte per character.
pub proof fn hex_bytes(bytes: Seq<u8>)
    ensures
        encode_utf8(hex(bytes)).len() == 2 * bytes.len(),
{
    hex_len(bytes);
    hex_is_ascii(bytes);
    is_ascii_chars_encode_utf8(hex(bytes));
}

proof fn hex_is_ascii(bytes: Seq<u8>)
    ensures
        is_ascii_chars(hex(bytes)),
    decreases bytes.len(),
{
    if bytes.len() > 0 {
        hex_is_ascii(bytes.drop_last());
    }
}

fn hex_digit_text(n: u8) -> (r: &'static str)
    requires
        n < 16,
    ensures
        r@ == seq![hex_digit(n as int)],
{
    proof {
        reveal_strlit("0");
        reveal_strlit("1");
        reveal_strlit("2");
        reveal_strlit("3");
        reveal_strlit("4");
        reveal_strlit("5");
        reveal_strlit("6");
        reveal_strlit("7");
        reveal_strlit("8");
        reveal_strlit("9");
        reveal_strlit("a");
        reveal_strlit("b");
        reveal_strlit("c");
        reveal_strlit("d");
        reveal_strlit("e");
        reveal_strlit("f");
    }
    let r = match n {
        0 => "0",
        1 => "1",
        2 => "2",
        3 => "3",
        4 => "4",
        5 => "5",
        6 => "6",
        7 => "7",
        8 => "8",
        9 => "9",
        10 => "a",
        11 => "b",
        12 => "c",
        13 => "d",
        14 => "e",
        _ => "f",
    };
    assert(r@ =~= seq![hex_digit(n as int)]);
    r
}

/// The first `count` bytes in hexadecimal.
pub fn hex_encode(bytes: &Vec<u8>, count: usize) -> (r: String)
    requires
        count <= bytes@.len(),
    ensures
        r@ == hex(bytes@.take(count as int)),
{
    let mut text = String::new();
    let mut i: usize = 0;
    assert(bytes@.take(0) =~= Seq::<u8>::empty());
    while i < count
        invariant
            i <= count,
            count <= bytes@.len(),
            text@ == hex(bytes@.take(i as int)),
        decreases count - i,
    {
        assert(bytes@.take(i + 1).drop_last() =~= bytes@.take(i as int));
        text.append(hex_digit_text(bytes[i] / 16));
        text.append(hex_digit_text(bytes[i] % 16));
        i += 1;
    }
    text
}

/// The first sixteen hexadecimal digits of a text's SHA-256 hash.
pub open spec fn short_digest(text: Seq<char>) -> Seq<char> {
    hex(sha256(encode_utf8(text)).take(8))
}

/// The first sixteen hexadecimal digits of a text's SHA-256 hash.
pub fn digest_text(text: &str) -> (r: String)
    ensures
        r@ == short_digest(text@),
        r@.len() == 16,
        encode_utf8(r@).len() == 16,
{
    let hash = sha256_digest(text.as_bytes());
    proof {
        hex_len(hash@.take(8));
        hex_bytes(hash@.take(8));
    }
    hex_encode(&hash, 8)
}

} // verus!
