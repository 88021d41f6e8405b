//! PIN and password strings drawn from a random generator that is either
//! seeded from a user-supplied string or from the operating system.
use rand::distributions::Alphanumeric;
use rand::rngs::{OsRng, StdRng};
use rand::Rng;
use rand::SeedableRng;
use crate::render::digit_char;
use vstd::prelude::*;
use vstd::string::StringSliceAdditionalSpecFns;
use vstd::utf8::encode_utf8;

verus! {

#[verifier::external_type_specification]
#[verifier::external_body]
pub struct ExStdRng(StdRng);

/// The length of the seed that a `StdRng` is built from.
pub const SEED_LEN: usize = 32;

/// A decimal digit character.
pub open spec fn is_digit_char(c: char) -> bool {
    '0' <= c && c <= '9'
}

/// The byte of an ASCII letter (either case) or an ASCII digit.
pub open spec fn is_alphanumeric_byte(b: u8) -> bool {
    (0x41 <= b && b <= 0x5a) || (0x61 <= b && b <= 0x7a) || (0x30 <= b && b <= 0x39)
}

/// An ASCII letter (either case) or an ASCII digit.
pub open spec fn is_alphanumeric_char(c: char) -> bool {
    ('A' <= c && c <= 'Z') || ('a' <= c && c <= 'z') || ('0' <= c && c <= '9')
}

/// The seed derived from the bytes of a seed string: its first 32 bytes,
/// padded with zeros where the string is shorter.
pub open spec fn seed_of(bytes: Seq<u8>) -> Seq<u8> {
    Seq::new(SEED_LEN as nat, |i: int| if i < bytes.len() { bytes[i] } else { 0u8 })
}

/// Relies on rand's `SeedableRng::from_seed` for `StdRng`: a generator fixed by the seed.
#[verifier::external_body]
fn rng_from_seed(seed: [u8; 32]) -> StdRng {
    StdRng::from_seed(seed)
}

/// Relies on rand's `SeedableRng::from_rng` for `StdRng` with `OsRng`: a
/// generator seeded by the OS, or an error when the OS cannot supply entropy.
#[verifier::external_body]
fn rng_from_os() -> Option<StdRng> {
    StdRng::from_rng(OsRng).ok()
}

/// Relies on rand's `Rng::gen_range(0..10)`: a value in the half-open range `0..10`.
#[verifier::external_body]
fn draw_digit(rng: &mut StdRng) -> (r: u32)
    ensures
        r < 10,
{
    rng.gen_range(0..10)
}

/// Relies on rand's `Alphanumeric` distribution: one byte of `A-Z`, `a-z` or `0-9`.
#[verifier::external_body]
fn draw_alphanumeric(rng: &mut StdRng) -> (r: u8)
    ensures
        is_alphanumeric_byte(r),
{
    rng.sample(Alphanumeric)
}

/// Relies on std's `String::push`: the character is appended at the end.
#[verifier::external_body]
fn push_char(s: &mut String, c: char)
    ensures
        final(s)@ == old(s)@.push(c),
{
    s.push(c)
}

/// The 32-byte seed for a seed string: its first 32 bytes, zero-padded.
pub fn seed_from_str(seed: &str) -> (r: [u8; 32])
    ensures
        r@ == seed_of(seed.spec_bytes()),
{
    let bytes = seed.as_bytes();
    let mut arr: [u8; 32] = [0u8; 32];
    let n: usize = if bytes.len() < SEED_LEN { bytes.len() } else { SEED_LEN };
    let mut i: usize = 0;
    while i < n
        invariant
            n <= SEED_LEN,
            n <= bytes@.len(),
            n == bytes@.len() || n == SEED_LEN,
            bytes@ == seed.spec_bytes(),
            i <= n,
            arr@.len() == SEED_LEN,
            forall|j: int| 0 <= j < i ==> arr@[j] == bytes@[j],
            forall|j: int| i <= j < SEED_LEN ==> arr@[j] == 0u8,
        decreases n - i,
    {
        arr[i] = bytes[i];
        i = i + 1;
    }
    assert(arr@ =~= seed_of(seed.spec_bytes()));
    arr
}

/// A generator together with the seed it was built from; `None` stands for
/// a seed taken from the operating system.
pub struct SeededRng {
    pub rng: StdRng,
    pub seed: Ghost<Option<Seq<u8>>>,
}

/// A generator built from the seed string when one is given, else from the
/// OS. Only the OS path can fail, when the OS cannot supply entropy.
pub fn create_rng(seed: Option<&String>) -> (r: Option<SeededRng>)
    ensures
        seed is Some ==> r is Some && r->0.seed@ == Some(seed_of(encode_utf8(seed->0@))),
        seed is None && r is Some ==> r->0.seed@ is None,
{
    match seed {
        Some(s) => {
            let rng = rng_from_seed(seed_from_str(s.as_str()));
            Some(SeededRng { rng, seed: Ghost(Some(seed_of(encode_utf8(s@)))) })
        },
        None => match rng_from_os() {
            Some(rng) => Some(SeededRng { rng, seed: Ghost(None) }),
            None => None,
        },
    }
}

/// The PIN spelled by the drawn digits, one character per digit.
pub fn pin_from_digits(d: &Vec<u32>) -> (r: String)
    requires
        forall|i: int| 0 <= i < d@.len() ==> #[trigger] d@[i] < 10,
    ensures
        r@ == d@.map_values(|x: u32| digit_char(x as int)),
        forall|i: int| 0 <= i < r@.len() ==> is_digit_char(#[trigger] r@[i]),
{
    let mut out = String::new();
    let mut k: usize = 0;
    while k < d.len()
        invariant
            k <= d@.len(),
            forall|i: int| 0 <= i < d@.len() ==> #[trigger] d@[i] < 10,
            out@ == d@.subrange(0, k as int).map_values(|x: u32| digit_char(x as int)),
            forall|i: int| 0 <= i < out@.len() ==> is_digit_char(#[trigger] out@[i]),
        decreases d@.len() - k,
    {
        let c = (48u8 + d[k] as u8) as char;
        push_char(&mut out, c);
        k = k + 1;
        assert(out@ =~= d@.subrange(0, k as int).map_values(|x: u32| digit_char(x as int)));
    }
    assert(d@.subrange(0, d@.len() as int) =~= d@);
    out
}

/// The password spelled by the drawn bytes, one character per byte.
pub fn password_from_bytes(b: &Vec<u8>) -> (r: String)
    requires
        forall|i: int| 0 <= i < b@.len() ==> is_alphanumeric_byte(#[trigger] b@[i]),
    ensures
        r@ == b@.map_values(|x: u8| x as char),
        forall|i: int| 0 <= i < r@.len() ==> is_alphanumeric_char(#[trigger] r@[i]),
{
    let mut out = String::new();
    let mut k: usize = 0;
    while k < b.len()
        invariant
            k <= b@.len(),
            forall|i: int| 0 <= i < b@.len() ==> is_alphanumeric_byte(#[trigger] b@[i]),
            out@ == b@.subrange(0, k as int).map_values(|x: u8| x as char),
            forall|i: int| 0 <= i < out@.len() ==> is_alphanumeric_char(#[trigger] out@[i]),
        decreases b@.len() - k,
    {
        push_char(&mut out, b[k] as char);
        k = k + 1;
        assert(out@ =~= b@.subrange(0, k as int).map_values(|x: u8| x as char));
    }
    assert(b@.subrange(0, b@.len() as int) =~= b@);
    out
}

/// A PIN of `length` decimal digits, each drawn from the generator that
/// `create_rng` builds. With a seed it always succeeds; without one it fails
/// only when the OS cannot supply entropy.
pub fn generate_pin(length: u32, seed: Option<&String>) -> (r: Option<String>)
    ensures
        seed is Some ==> r is Some,
        r is Some ==> r->0@.len() == length,
        r is Some ==> forall|i: int| 0 <= i < r->0@.len() ==> is_digit_char(#[trigger] r->0@[i]),
{
    let mut g = match create_rng(seed) {
        Some(g) => g,
        None => {
            return None;
        },
    };
    let mut digits: Vec<u32> = Vec::new();
    let mut k: u32 = 0;
    while k < length
        invariant
            k <= length,
            digits@.len() == k,
            forall|i: int| 0 <= i < digits@.len() ==> #[trigger] digits@[i] < 10,
        decreases length - k,
    {
        digits.push(draw_digit(&mut g.rng));
        k = k + 1;
    }
    Some(pin_from_digits(&digits))
}

/// A password of `length` ASCII letters and digits, each drawn from the
/// generator that `create_rng` builds. With a seed it always succeeds;
/// without one it fails only when the OS cannot supply entropy.
pub fn generate_password(length: u32, seed: Option<&String>) -> (r: Option<String>)
    ensures
        seed is Some ==> r is Some,
        r is Some ==> r->0@.len() == length,
        r is Some ==> forall|i: int| 0 <= i < r->0@.len() ==> is_alphanumeric_char(#[trigger] r->0@[i]),
{
    let mut g = match create_rng(seed) {
        Some(g) => g,
        None => {
            return None;
        },
    };
    let mut bytes: Vec<u8> = Vec::new();
    let mut k: u32 = 0;
    while k < length
        invariant
            k <= length,
            bytes@.len() == k,
            forall|i: int| 0 <= i < bytes@.len() ==> is_alphanumeric_byte(#[trigger] bytes@[i]),
        decreases length - k,
    {
        bytes.push(draw_alphanumeric(&mut g.rng));
        k = k + 1;
    }
    Some(password_from_bytes(&bytes))
}

} // verus!
