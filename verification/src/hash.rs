//! Streaming BLAKE3 / XXH3-128 hashing and the comparison that verifies a
//! copy. The hash functions are those of the `blake3` and `xxhash-rust`
//! crates; the text forms (lowercase hex, decimal) are built here.

use blake3::Hasher as Blake3Hasher;
use xxhash_rust::xxh3::Xxh3;
use crate::text::str_equal;
use vstd::prelude::*;

verus! {

#[verifier::external_type_specification]
#[verifier::external_body]
pub struct ExBlake3Hasher(Blake3Hasher);

#[verifier::external_type_specification]
#[verifier::external_body]
pub struct ExXxh3(Xxh3);

/// The bytes fed so far to a BLAKE3 hasher.
pub uninterp spec fn blake3_input(h: Blake3Hasher) -> Seq<u8>;

/// The bytes fed so far to an XXH3 hasher.
pub uninterp spec fn xxh3_input(h: Xxh3) -> Seq<u8>;

/// The 32-byte BLAKE3 hash of a byte string.
pub uninterp spec fn blake3_digest(data: Seq<u8>) -> Seq<u8>;

/// The 128-bit XXH3 hash of a byte string.
pub uninterp spec fn xxh3_digest(data: Seq<u8>) -> u128;

/// `blake3::Hasher::new` (outside): a hasher that has seen nothing.
#[verifier::external_body]
fn blake3_new() -> (h: Blake3Hasher)
    ensures
        blake3_input(h) == Seq::<u8>::empty(),
{
    Blake3Hasher::new()
}

/// `blake3::Hasher::update` (outside): appends `bytes` to the input.
#[verifier::external_body]
fn blake3_update(h: &mut Blake3Hasher, bytes: &[u8])
    ensures
        blake3_input(*final(h)) == blake3_input(*old(h)) + bytes@,
{
    h.update(bytes);
}

/// `blake3::Hasher::finalize` (outside), as the 32 bytes of the hash of
/// everything fed so far; the hasher itself is unchanged.
#[verifier::external_body]
fn blake3_finalize(h: &Blake3Hasher) -> (r: [u8; 32])
    ensures
        r@ == blake3_digest(blake3_input(*h)),
        r@.len() == 32,
{
    *h.finalize().as_bytes()
}

/// `Xxh3::new` (outside): a hasher with the default seed that has seen nothing.
#[verifier::external_body]
fn xxh3_new() -> (h: Xxh3)
    ensures
        xxh3_input(h) == Seq::<u8>::empty(),
{
    Xxh3::new()
}

/// `Xxh3::update` (outside): appends `bytes` to the input.
#[verifier::external_body]
fn xxh3_update(h: &mut Xxh3, bytes: &[u8])
    ensures
        xxh3_input(*final(h)) == xxh3_input(*old(h)) + bytes@,
{
    h.update(bytes);
}

/// `Xxh3::digest128` (outside): the 128-bit hash of everything fed so far.
#[verifier::external_body]
fn xxh3_digest128(h: &Xxh3) -> (r: u128)
    ensures
        r == xxh3_digest(xxh3_input(*h)),
{
    h.digest128()
}

// ── Text forms ───────────────────────────────────────────────────────

/// The lowercase hexadecimal digit for `v < 16`.
pub open spec fn hex_digit(v: u8) -> char {
    if v < 10 { ((v + 48) as u8) as char } else { ((v - 10 + 97) as u8) as char }
}

/// Lowercase hexadecimal, two digits per byte, high nibble first.
pub open spec fn spec_hex(data: Seq<u8>) -> Seq<char>
    decreases data.len(),
{
    if data.len() == 0 {
        Seq::empty()
    } else {
        spec_hex(data.drop_last()) + seq![hex_digit(data.last() / 16), hex_digit(data.last() % 16)]
    }
}

/// The decimal digits of a number, without leading zeros ("0" for zero).
pub open spec fn spec_decimal(v: nat) -> Seq<char>
    decreases v,
{
    if v < 10 {
        seq![((v + 48) as u8) as char]
    } else {
        spec_decimal(v / 10).push((((v % 10) + 48) as u8) as char)
    }
}

fn digit_char(d: u8) -> (c: char)
    requires
        d < 16,
    ensures
        c == hex_digit(d),
{
    if d < 10 {
        ((d + 48) as u8) as char
    } else {
        ((d - 10 + 97) as u8) as char
    }
}

/// Builds a string from its characters.
fn string_of(chars: &Vec<char>) -> (s: String)
    ensures
        s@ == chars@,
{
    let mut s = String::new();
    let mut i: usize = 0;
    while i < chars.len()
        invariant
            i <= chars@.len(),
            s@ == chars@.take(i as int),
        decreases chars@.len() - i,
    {
        let c = chars[i];
        let one = char_str(c);
        s.append(one.as_str());
        assert(chars@.take(i + 1) =~= chars@.take(i as int).push(c));
        i += 1;
    }
    assert(chars@.take(chars@.len() as int) =~= chars@);
    s
}

/// `char::to_string` (std): the one-character string.
#[verifier::external_body]
pub(crate) fn char_str(c: char) -> (s: String)
    ensures
        s@ == seq![c],
{
    c.to_string()
}

/// Lowercase hexadecimal form of bytes.
pub fn to_hex(data: &[u8]) -> (s: String)
    ensures
        s@ == spec_hex(data@),
{
    let mut chars: Vec<char> = Vec::new();
    let mut i: usize = 0;
    while i < data.len()
        invariant
            i <= data@.len(),
            chars@ == spec_hex(data@.take(i as int)),
        decreases data@.len() - i,
    {
        let b = data[i];
        assert(data@.take(i + 1).drop_last() =~= data@.take(i as int));
        chars.push(digit_char(b / 16));
        chars.push(digit_char(b % 16));
        i += 1;
    }
    assert(data@.take(data@.len() as int) =~= data@);
    string_of(&chars)
}

/// Decimal form of a 128-bit number.
pub fn to_decimal(v: u128) -> (s: String)
    ensures
        s@ == spec_decimal(v as nat),
{
    let mut digits: Vec<char> = Vec::new();
    let mut rest: u128 = v;
    // digits, least significant first
    loop
        invariant_except_break
            spec_decimal(v as nat) == spec_decimal(rest as nat) + digits@.reverse(),
        ensures
            spec_decimal(v as nat) == digits@.reverse(),
        decreases rest,
    {
        let d = (rest % 10) as u8;
        let c = ((d + 48) as u8) as char;
        if rest < 10 {
            let ghost old_digits = digits@;
            digits.push(c);
            assert(spec_decimal(rest as nat) == seq![c]);
            assert(digits@.reverse() =~= seq![c] + old_digits.reverse());
            break;
        }
        let ghost old_digits = digits@;
        digits.push(c);
        assert(spec_decimal(rest as nat) == spec_decimal((rest / 10) as nat).push(c));
        assert(digits@.reverse() =~= seq![c] + old_digits.reverse());
        assert(spec_decimal((rest / 10) as nat).push(c) + old_digits.reverse()
            =~= spec_decimal((rest / 10) as nat) + digits@.reverse());
        rest = rest / 10;
    }
    // most significant first
    let mut ordered: Vec<char> = Vec::new();
    let n = digits.len();
    let mut i: usize = 0;
    while i < n
        invariant
            n == digits@.len(),
            i <= n,
            ordered@ == digits@.reverse().take(i as int),
        decreases n - i,
    {
        ordered.push(digits[n - 1 - i]);
        assert(ordered@ =~= digits@.reverse().take(i + 1));
        i += 1;
    }
    assert(digits@.reverse().take(n as int) =~= digits@.reverse());
    string_of(&ordered)
}

// ── Streaming hasher ─────────────────────────────────────────────────

/// The text form of the hash of `data`: lowercase hex of the BLAKE3 hash,
/// or the decimal form of the XXH3-128 hash.
pub open spec fn spec_hash_text(blake3: bool, data: Seq<u8>) -> Seq<char> {
    if blake3 {
        spec_hex(blake3_digest(data))
    } else {
        spec_decimal(xxh3_digest(data) as nat)
    }
}

/// Stream-hashes bytes with BLAKE3 or XXH3.
pub enum StreamHasher {
    Blake3(Blake3Hasher),
    Xxh3(Xxh3),
}

impl View for StreamHasher {
    /// Which algorithm (true for BLAKE3), and the bytes fed so far.
    type V = (bool, Seq<u8>);

    open spec fn view(&self) -> (bool, Seq<u8>) {
        match self {
            StreamHasher::Blake3(h) => (true, blake3_input(*h)),
            StreamHasher::Xxh3(h) => (false, xxh3_input(*h)),
        }
    }
}

impl StreamHasher {
    pub fn new(use_blake3: bool) -> (r: Self)
        ensures
            r@ == (use_blake3, Seq::<u8>::empty()),
    {
        if use_blake3 {
            StreamHasher::Blake3(blake3_new())
        } else {
            StreamHasher::Xxh3(xxh3_new())
        }
    }

    /// Feeds more bytes.
    pub fn update(&mut self, bytes: &[u8])
        ensures
            final(self)@ == (old(self)@.0, old(self)@.1 + bytes@),
    {
        match self {
            StreamHasher::Blake3(h) => blake3_update(h, bytes),
            StreamHasher::Xxh3(h) => xxh3_update(h, bytes),
        }
    }

    /// The text form of the hash of everything fed so far.
    pub fn finalize_hex(&self) -> (r: String)
        ensures
            r@ == spec_hash_text(self@.0, self@.1),
    {
        match self {
            StreamHasher::Blake3(h) => {
                let d = blake3_finalize(h);
                to_hex(&d)
            },
            StreamHasher::Xxh3(h) => to_decimal(xxh3_digest128(h)),
        }
    }
}

/// A copy is verified when both hash texts are equal.
pub fn hashes_match(src_hash: &str, dst_hash: &str) -> (r: bool)
    ensures
        r == (src_hash@ == dst_hash@),
{
    str_equal(src_hash, dst_hash)
}

/// Feeding the same bytes, in whatever chunks, gives the same hash text:
/// a copy with the source's contents always verifies.
pub proof fn lemma_same_stream_same_hash(blake3: bool, a: Seq<Seq<u8>>, b: Seq<Seq<u8>>)
    requires
        a.fold_left(Seq::<u8>::empty(), |acc: Seq<u8>, c: Seq<u8>| acc + c)
            == b.fold_left(Seq::<u8>::empty(), |acc: Seq<u8>, c: Seq<u8>| acc + c),
    ensures
        spec_hash_text(blake3, a.fold_left(Seq::<u8>::empty(), |acc: Seq<u8>, c: Seq<u8>| acc + c))
            == spec_hash_text(blake3, b.fold_left(Seq::<u8>::empty(), |acc: Seq<u8>, c: Seq<u8>| acc + c)),
{
}

} // verus!
