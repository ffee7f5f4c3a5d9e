//! Bytes as they go to the chain: 256-bit words, hexadecimal text, hashes and calls.

use vstd::arithmetic::div_mod::*;
use vstd::arithmetic::power::*;
use vstd::prelude::*;
use vstd::string::*;

use crate::json;
use crate::text::Text;

verus! {

// Words

/// A whole number as 32 bytes, the highest first.
pub open spec fn word(n: nat) -> Seq<u8> {
    Seq::new(32, |i: int| ((n as int / pow(256, (31 - i) as nat)) % 256) as u8)
}

/// A whole number as 32 bytes, the highest first.
pub fn word_of(n: u128) -> (w: Vec<u8>)
    ensures
        w@ == word(n as nat),
{
    let mut low: Vec<u8> = Vec::new();
    let mut left: u128 = n;
    let mut k: usize = 0;
    proof {
        lemma_pow0(256);
        assert(n as int / 1 == n as int);
    }
    while k < 32
        invariant
            k <= 32,
            low@.len() == k,
            left as int == n as int / pow(256, k as nat),
            forall|i: int|
                0 <= i < k ==> #[trigger] low@[i] == ((n as int / pow(256, i as nat)) % 256) as u8,
        decreases 32 - k,
    {
        proof {
            lemma_pow_positive(256, k as nat);
            lemma_pow_adds(256, k as nat, 1);
            lemma_pow1(256);
            lemma_div_denominator(n as int, pow(256, k as nat), 256);
        }
        low.push((left % 256) as u8);
        left = left / 256;
        k = k + 1;
    }
    let mut w: Vec<u8> = Vec::new();
    let mut i: usize = 0;
    while i < 32
        invariant
            i <= 32,
            w@.len() == i,
            low@.len() == 32,
            forall|j: int| 0 <= j < i ==> #[trigger] w@[j] == low@[31 - j],
        decreases 32 - i,
    {
        w.push(low[31 - i]);
        i = i + 1;
    }
    assert(w@ =~= word(n as nat));
    w
}

/// The largest 256-bit number.
pub open spec fn largest_word() -> Seq<u8> {
    Seq::new(32, |i: int| 255u8)
}

/// The same byte, 32 times.
pub fn repeat_byte(b: u8) -> (w: Vec<u8>)
    ensures
        w@ == Seq::new(32, |i: int| b),
{
    let mut w: Vec<u8> = Vec::new();
    while w.len() < 32
        invariant
            w@.len() <= 32,
            forall|j: int| 0 <= j < w@.len() ==> #[trigger] w@[j] == b,
        decreases 32 - w@.len(),
    {
        w.push(b);
    }
    assert(w@ =~= Seq::new(32, |i: int| b));
    w
}

// Hexadecimal text

/// The two digits of a byte.
pub open spec fn byte_hex(b: u8) -> Text {
    seq![json::hex_char(b as int / 16), json::hex_char(b as int % 16)]
}

/// Bytes as hexadecimal digits.
pub open spec fn hex_text(bytes: Seq<u8>) -> Text
    decreases bytes.len(),
{
    if bytes.len() == 0 {
        seq![]
    } else {
        hex_text(bytes.drop_last()) + byte_hex(bytes.last())
    }
}

fn hex_digit(d: u8) -> (c: char)
    requires
        d < 16,
    ensures
        c == json::hex_char(d as int),
{
    if d < 10 { (48 + d) as char } else { (87 + d) as char }
}

/// Bytes as hexadecimal digits behind `0x`.
pub fn hex_of(bytes: &Vec<u8>) -> (s: String)
    ensures
        s@ == "0x"@ + hex_text(bytes@),
{
    let mut s: String = "0x".to_owned();
    let mut i: usize = 0;
    assert(bytes@.take(0) =~= seq![]);
    while i < bytes.len()
        invariant
            i <= bytes@.len(),
            s@ == "0x"@ + hex_text(bytes@.take(i as int)),
        decreases bytes@.len() - i,
    {
        let b: u8 = bytes[i];
        s.push(hex_digit(b / 16));
        s.push(hex_digit(b % 16));
        proof {
            assert(bytes@.take(i + 1).drop_last() =~= bytes@.take(i as int));
            assert(bytes@.take(i + 1).last() == b);
            assert(s@ =~= "0x"@ + hex_text(bytes@.take(i + 1)));
        }
        i = i + 1;
    }
    assert(bytes@.take(bytes@.len() as int) =~= bytes@);
    s
}

/// Adds bytes behind others.
pub fn extend(out: &mut Vec<u8>, more: &Vec<u8>)
    ensures
        final(out)@ == old(out)@ + more@,
{
    let mut i: usize = 0;
    while i < more.len()
        invariant
            i <= more@.len(),
            out@ == old(out)@ + more@.take(i as int),
        decreases more@.len() - i,
    {
        out.push(more[i]);
        assert(out@ =~= old(out)@ + more@.take(i + 1));
        i = i + 1;
    }
    assert(more@.take(more@.len() as int) =~= more@);
}

// Hashes

/// The Keccak-256 hash of bytes.
pub uninterp spec fn keccak(bytes: Seq<u8>) -> Seq<u8>;

/// Hashes bytes with `alloy`'s `keccak256`. The hash is a function of the bytes and has 32.
#[verifier::external_body]
pub(crate) fn keccak_of(bytes: &Vec<u8>) -> (h: Vec<u8>)
    ensures
        h@ == keccak(bytes@),
        h@.len() == 32,
{
    alloy::primitives::keccak256(bytes).to_vec()
}

/// The bytes that a function of a contract is called by: the first four of the hash of its
/// name and the types of its arguments.
pub open spec fn selector(signature: Seq<u8>) -> Seq<u8> {
    keccak(signature).take(4)
}

/// The bytes that a function of a contract is called by.
pub fn selector_of(signature: &str) -> (s: Vec<u8>)
    ensures
        s@ == selector(signature.spec_bytes()),
        s@.len() == 4,
{
    let hash: Vec<u8> = keccak_of(&signature.as_bytes_vec());
    let mut s: Vec<u8> = Vec::new();
    let mut i: usize = 0;
    while i < 4
        invariant
            i <= 4,
            hash@.len() == 32,
            s@ == hash@.take(i as int),
        decreases 4 - i,
    {
        s.push(hash[i]);
        i = i + 1;
        assert(s@ =~= hash@.take(i as int));
    }
    s
}

/// The 32 bytes that a text in hexadecimal digits writes.
pub uninterp spec fn bytes32_of_text(s: Seq<char>) -> Option<Seq<u8>>;

/// What optional bytes hold.
pub open spec fn opt_bytes(b: Option<Vec<u8>>) -> Option<Seq<u8>> {
    match b {
        Some(b) => Some(b@),
        None => None,
    }
}

/// Reads 32 bytes with the `FromStr` of `alloy`'s `B256`, which is a function of the text.
#[verifier::external_body]
pub(crate) fn parse_bytes32(s: &str) -> (b: Option<Vec<u8>>)
    ensures
        opt_bytes(b) == bytes32_of_text(s@),
        b matches Some(b) ==> b@.len() == 32,
{
    let parsed: Result<alloy::primitives::B256, _> = s.parse();
    parsed.ok().map(|b: alloy::primitives::B256| b.to_vec())
}

// Laws

/// A word holds its number byte by byte: the last byte is what is left of it by 256, and the others
/// are those of the number without that byte.
pub proof fn words_hold_numbers(n: nat, i: int)
    requires
        0 <= i < 31,
    ensures
        word(n).len() == 32,
        word(n)[31] == n % 256,
        word(n)[i] == word(n / 256)[i + 1],
{
    lemma_pow0(256);
    assert(n as int / 1 == n as int);
    lemma_pow_positive(256, (30 - i) as nat);
    lemma_pow_adds(256, 1, (30 - i) as nat);
    lemma_pow1(256);
    lemma_div_denominator(n as int, 256, pow(256, (30 - i) as nat));
}

/// Every byte is written with two digits, the higher one first, and the bytes in their order.
pub proof fn bytes_are_written_in_order(bytes: Seq<u8>, i: int)
    requires
        0 <= i < bytes.len(),
    ensures
        hex_text(bytes).len() == 2 * bytes.len(),
        hex_text(bytes)[2 * i] == "0123456789abcdef"@[bytes[i] as int / 16],
        hex_text(bytes)[2 * i + 1] == "0123456789abcdef"@[bytes[i] as int % 16],
    decreases bytes.len(),
{
    let fewer = bytes.drop_last();
    lemma_hex_len(bytes);
    lemma_hex_len(fewer);
    lemma_hex_digit(bytes[i] as int / 16);
    lemma_hex_digit(bytes[i] as int % 16);
    if i < fewer.len() {
        bytes_are_written_in_order(fewer, i);
    }
}

proof fn lemma_hex_len(bytes: Seq<u8>)
    ensures
        hex_text(bytes).len() == 2 * bytes.len(),
    decreases bytes.len(),
{
    if bytes.len() > 0 {
        lemma_hex_len(bytes.drop_last());
    }
}

proof fn lemma_hex_digit(d: int)
    requires
        0 <= d < 16,
    ensures
        json::hex_char(d) == "0123456789abcdef"@[d],
{
    reveal_strlit("0123456789abcdef");
}

} // verus!
