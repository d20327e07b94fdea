//! The policy by which new secrets are generated.
//!
//! A secret is drawn from random bytes. A byte is used when it lies below the
//! largest multiple of the number of symbols that a byte can hold, so that
//! every symbol is as likely as every other; the other bytes are passed over.
use vstd::prelude::*;
use rand::RngCore;
use zeroize::Zeroize;
use crate::secret::Secret;

verus! {

/// The length of a generated secret where none, or none that is accepted, was
/// asked for.
pub const DEFAULT_LENGTH: usize = 32;

/// The least length that is accepted.
pub const MIN_LENGTH: usize = 4;

/// The greatest length that is accepted.
pub const MAX_LENGTH: usize = 1024;

/// Why no secret was generated.
#[derive(Clone, Copy, Debug, PartialEq, Eq, Structural)]
pub enum GenerationError {
    /// The source of random bytes could not be read.
    EntropyUnavailable,
    /// The random bytes that were read held too few usable ones.
    EntropyExhausted,
}

/// The error of the random sources of `rand`. It is carried, never read.
#[verifier::external_type_specification]
#[verifier::external_body]
pub struct ExRandError(rand::Error);

/// Whether a length lies in the accepted range.
pub open spec fn length_accepted(length: int) -> bool {
    MIN_LENGTH <= length <= MAX_LENGTH
}

/// The length that is used for a request: the requested one where it is
/// accepted, else the default.
pub open spec fn normalized_length(requested: Option<usize>) -> usize {
    match requested {
        Some(length) => if length_accepted(length as int) {
            length
        } else {
            DEFAULT_LENGTH
        },
        None => DEFAULT_LENGTH,
    }
}

/// `c` is a decimal digit.
pub open spec fn is_digit(c: char) -> bool {
    '0' <= c && c <= '9'
}

/// Every character of `s` is a decimal digit.
pub open spec fn all_digits(s: Seq<char>) -> bool {
    forall|i: int| 0 <= i < s.len() ==> is_digit(#[trigger] s[i])
}

/// The number that the digits `s` write in base ten.
pub open spec fn digits_value(s: Seq<char>) -> int
    decreases s.len(),
{
    if s.len() == 0 {
        0
    } else {
        digits_value(s.drop_last()) * 10 + (s.last() as int - '0' as int)
    }
}

/// `s` without a plus sign in front.
pub open spec fn unsigned_part(s: Seq<char>) -> Seq<char> {
    if s.len() > 0 && s[0] == '+' {
        s.drop_first()
    } else {
        s
    }
}

/// The length that the text `s` asks for: `s` is one or more decimal digits,
/// with or without a plus sign in front, and the number fits the machine.
pub open spec fn parsed_length(s: Seq<char>) -> Option<usize> {
    let digits = unsigned_part(s);
    if digits.len() > 0 && all_digits(digits) && digits_value(digits) <= usize::MAX {
        Some(digits_value(digits) as usize)
    } else {
        None
    }
}

/// The number of symbols to draw from.
pub open spec fn symbol_count(alnum_only: bool) -> int {
    if alnum_only {
        62
    } else {
        94
    }
}

/// The bound below which a random byte is used: the largest multiple of the
/// number of symbols that is at most 256.
pub open spec fn usable_below(alnum_only: bool) -> int {
    if alnum_only {
        248
    } else {
        188
    }
}

/// Symbol number `k`. With `alnum_only` the symbols are `A` to `Z`, `a` to
/// `z` and `0` to `9`; else they are the printable ASCII characters from `!`
/// to `~`.
pub open spec fn symbol(alnum_only: bool, k: int) -> char {
    if alnum_only {
        if k < 26 {
            ('A' as int + k) as char
        } else if k < 52 {
            ('a' as int + k - 26) as char
        } else {
            ('0' as int + k - 52) as char
        }
    } else {
        ('!' as int + k) as char
    }
}

/// `c` is an ASCII letter or digit.
pub open spec fn is_alnum(c: char) -> bool {
    ('A' <= c && c <= 'Z') || ('a' <= c && c <= 'z') || ('0' <= c && c <= '9')
}

/// `c` is one of the symbols to draw from.
pub open spec fn is_symbol(alnum_only: bool, c: char) -> bool {
    if alnum_only {
        is_alnum(c)
    } else {
        '!' <= c && c <= '~'
    }
}

/// The test that tells the random bytes that are used.
pub open spec fn is_usable(alnum_only: bool) -> spec_fn(u8) -> bool {
    |b: u8| (b as int) < usable_below(alnum_only)
}

/// The symbol that a used byte stands for.
pub open spec fn to_symbol(alnum_only: bool) -> spec_fn(u8) -> char {
    |b: u8| symbol(alnum_only, b as int % symbol_count(alnum_only))
}

/// The symbols that the random bytes `entropy` give, in their order.
pub open spec fn drawn(alnum_only: bool, entropy: Seq<u8>) -> Seq<char> {
    entropy.filter(is_usable(alnum_only)).map_values(to_symbol(alnum_only))
}

/// The number of random bytes that are read for a secret of `length`
/// characters.
pub open spec fn entropy_needed(length: int) -> int {
    2 * length + 128
}

/// What a generation policy is, as plain values.
pub struct GenerationSpecView {
    pub alnum_only: bool,
    pub length: nat,
}

/// What kind of secret to generate: from which symbols, and how long.
#[derive(Clone, Copy, Debug)]
pub struct GenerationSpec {
    alnum_only: bool,
    length: usize,
}

impl View for GenerationSpec {
    type V = GenerationSpecView;

    closed spec fn view(&self) -> GenerationSpecView {
        GenerationSpecView { alnum_only: self.alnum_only, length: self.length as nat }
    }
}

/// Every symbol that is drawn is one of the symbols to draw from.
pub proof fn lemma_drawn_symbols(alnum_only: bool, entropy: Seq<u8>, k: int)
    requires
        0 <= k < drawn(alnum_only, entropy).len(),
    ensures
        is_symbol(alnum_only, drawn(alnum_only, entropy)[k]),
{
    let used = entropy.filter(is_usable(alnum_only));
    let b = used[k];
    let m = b as int % symbol_count(alnum_only);
    assert(0 <= m < symbol_count(alnum_only));
    assert(drawn(alnum_only, entropy)[k] == symbol(alnum_only, m));
}

/// The symbols drawn from the first `i` random bytes are the first of the
/// symbols drawn from all of them.
pub proof fn lemma_drawn_prefix(alnum_only: bool, entropy: Seq<u8>, i: int)
    requires
        0 <= i <= entropy.len(),
    ensures
        drawn(alnum_only, entropy.take(i)).is_prefix_of(drawn(alnum_only, entropy)),
{
    let part = entropy.take(i);
    assert(part.is_prefix_of(entropy));
    part.lemma_filter_monotone(entropy, is_usable(alnum_only));
    let a = part.filter(is_usable(alnum_only));
    let b = entropy.filter(is_usable(alnum_only));
    assert(a =~= b.subrange(0, a.len() as int));
    assert(a.map_values(to_symbol(alnum_only)) =~= b.map_values(to_symbol(alnum_only)).subrange(
        0,
        a.len() as int,
    ));
}

/// The number of the first `i` digits is at most the number of all of them.
proof fn lemma_digits_grow(s: Seq<char>, i: int)
    requires
        all_digits(s),
        0 <= i <= s.len(),
    ensures
        0 <= digits_value(s.take(i)) <= digits_value(s),
    decreases s.len() - i,
{
    lemma_digits_nonnegative(s.take(i));
    if i < s.len() {
        lemma_digits_grow(s, i + 1);
        assert(s.take(i + 1).drop_last() =~= s.take(i));
        assert(is_digit(s[i]));
        assert(s.take(i + 1).last() == s[i]);
    } else {
        assert(s.take(i) =~= s);
    }
}

/// The number that digits write is not negative.
proof fn lemma_digits_nonnegative(s: Seq<char>)
    requires
        all_digits(s),
    ensures
        0 <= digits_value(s),
    decreases s.len(),
{
    if s.len() > 0 {
        assert(is_digit(s.last()));
        assert forall|i: int| 0 <= i < s.drop_last().len() implies is_digit(
            #[trigger] s.drop_last()[i],
        ) by {
            assert(s.drop_last()[i] == s[i]);
        }
        lemma_digits_nonnegative(s.drop_last());
    }
}

/// `RngCore::try_fill_bytes` of `rand::rngs::OsRng`: fills a buffer of
/// `count` bytes from the random source of the operating system. Nothing is
/// claimed of the bytes, nor of when the call succeeds.
#[verifier::external_body]
fn os_entropy(count: usize) -> (r: Result<Vec<u8>, rand::Error>)
    ensures
        r is Ok ==> r.unwrap()@.len() == count,
{
    let mut bytes = vec![0u8; count];
    match rand::rngs::OsRng.try_fill_bytes(&mut bytes) {
        Ok(()) => Ok(bytes),
        Err(e) => Err(e),
    }
}

/// `Zeroize::zeroize` on a `Vec<u8>`: overwrites the whole buffer of the
/// vector with zero bytes, spare capacity included, and leaves it empty.
#[verifier::external_body]
fn erase_bytes(bytes: &mut Vec<u8>)
    ensures
        final(bytes)@ == Seq::<u8>::empty(),
{
    bytes.zeroize();
}

/// Symbol number `k`.
fn symbol_for(alnum_only: bool, k: u8) -> (c: char)
    requires
        k < symbol_count(alnum_only),
    ensures
        c == symbol(alnum_only, k as int),
{
    if alnum_only {
        if k < 26 {
            (65u8 + k) as char
        } else if k < 52 {
            (97u8 + (k - 26)) as char
        } else {
            (48u8 + (k - 52)) as char
        }
    } else {
        (33u8 + k) as char
    }
}

/// The requested length where it is accepted, else nothing.
pub fn check_password_len(requested: Option<usize>) -> (r: Option<usize>)
    ensures
        r == match requested {
            Some(length) => if length_accepted(length as int) {
                Some(length)
            } else {
                None
            },
            None => None,
        },
{
    match requested {
        Some(length) => if MIN_LENGTH <= length && length <= MAX_LENGTH {
            Some(length)
        } else {
            None
        },
        None => None,
    }
}

/// Reads a length from text: one or more decimal digits, with or without a
/// plus sign in front. Anything else, and a number too large for the machine,
/// gives nothing.
pub fn parse_length(text: &str) -> (r: Option<usize>)
    ensures
        r == parsed_length(text@),
{
    let n: usize = text.unicode_len();
    let start: usize = if n > 0 && text.get_char(0) == '+' {
        1
    } else {
        0
    };
    let ghost digits = unsigned_part(text@);
    assert(digits =~= text@.subrange(start as int, n as int));
    if start == n {
        return None;
    }
    let mut value: usize = 0;
    let mut i: usize = start;
    while i < n
        invariant
            n == text@.len(),
            start <= i <= n,
            digits == text@.subrange(start as int, n as int),
            digits == unsigned_part(text@),
            all_digits(digits.take(i - start)),
            value == digits_value(digits.take(i - start)),
        decreases n - i,
    {
        let c = text.get_char(i);
        assert(digits[i - start] == c);
        if !('0' <= c && c <= '9') {
            assert(!is_digit(digits[i - start]));
            return None;
        }
        let digit: usize = ((c as u8) - 48u8) as usize;
        assert(digit == c as int - '0' as int);
        proof {
            let longer = digits.take(i - start + 1);
            assert(longer.drop_last() =~= digits.take(i - start));
            assert(longer.last() == c);
            assert forall|k: int| 0 <= k < longer.len() implies is_digit(#[trigger] longer[k]) by {
                if k < i - start {
                    assert(longer[k] == digits.take(i - start)[k]);
                }
            }
            assert(digits_value(longer) == value * 10 + digit);
            if all_digits(digits) {
                lemma_digits_grow(digits, i - start + 1);
            }
        }
        let scaled = match value.checked_mul(10) {
            Some(scaled) => scaled,
            None => {
                return None;
            },
        };
        value = match scaled.checked_add(digit) {
            Some(sum) => sum,
            None => {
                return None;
            },
        };
        i += 1;
    }
    assert(digits.take(i - start) =~= digits);
    Some(value)
}

impl GenerationSpec {
    #[verifier::type_invariant]
    spec fn well_formed(&self) -> bool {
        MIN_LENGTH <= self.length <= MAX_LENGTH
    }

    /// The policy for a request. A requested length outside the accepted
    /// range, and none at all, give the default length.
    pub fn new(alnum_only: bool, length: Option<usize>) -> (s: GenerationSpec)
        ensures
            s@.alnum_only == alnum_only,
            s@.length == normalized_length(length),
            length_accepted(s@.length as int),
    {
        let length: usize = match check_password_len(length) {
            Some(length) => length,
            None => DEFAULT_LENGTH,
        };
        GenerationSpec { alnum_only, length }
    }

    /// The policy for a request whose length is still text, as it was typed.
    /// Text that is no number gives the default length.
    pub fn from_request(alnum_only: bool, length: Option<&str>) -> (s: GenerationSpec)
        ensures
            s@.alnum_only == alnum_only,
            s@.length == normalized_length(
                match length {
                    Some(text) => parsed_length(text@),
                    None => None,
                },
            ),
            length_accepted(s@.length as int),
    {
        let requested: Option<usize> = match length {
            Some(text) => parse_length(text),
            None => None,
        };
        GenerationSpec::new(alnum_only, requested)
    }

    /// Whether only letters and digits are drawn.
    pub fn alnum_only(&self) -> (r: bool)
        ensures
            r == self@.alnum_only,
    {
        self.alnum_only
    }

    /// The length of the secrets that are generated.
    pub fn length(&self) -> (r: usize)
        ensures
            r == self@.length,
            length_accepted(r as int),
    {
        proof {
            use_type_invariant(self);
        }
        self.length
    }

    /// The number of random bytes that are read for one secret.
    pub fn entropy_len(&self) -> (r: usize)
        ensures
            r == entropy_needed(self@.length as int),
    {
        proof {
            use_type_invariant(self);
        }
        2 * self.length + 128
    }
}

/// What the random bytes `entropy` give under a policy: the first symbols
/// that are drawn from them, as many as the policy asks for, or nothing where
/// they hold too few usable bytes.
pub open spec fn drawn_secret(spec: GenerationSpecView, entropy: Seq<u8>) -> Result<
    Seq<char>,
    GenerationError,
> {
    if drawn(spec.alnum_only, entropy).len() < spec.length {
        Err(GenerationError::EntropyExhausted)
    } else {
        Ok(drawn(spec.alnum_only, entropy).take(spec.length as int))
    }
}

/// What a result of generation is, as plain values.
pub open spec fn result_view(r: Result<Secret, GenerationError>) -> Result<Seq<char>, GenerationError> {
    match r {
        Ok(secret) => Ok(secret@),
        Err(error) => Err(error),
    }
}

/// The secret that the random bytes `entropy` give under the policy `spec`:
/// the first symbols that are drawn from them, as many as the policy asks
/// for. With too few usable bytes there is none. The random bytes are erased
/// either way.
pub fn draw(spec: &GenerationSpec, entropy: &mut Vec<u8>) -> (r: Result<Secret, GenerationError>)
    ensures
        result_view(r) == drawn_secret(spec@, old(entropy)@),
        final(entropy)@ == Seq::<u8>::empty(),
        r is Ok ==> r.unwrap()@.len() == spec@.length && forall|k: int|
            0 <= k < r.unwrap()@.len() ==> is_symbol(spec@.alnum_only, #[trigger] r.unwrap()@[k]),
{
    let alnum_only = spec.alnum_only();
    let length: usize = spec.length();
    let count: u8 = if alnum_only {
        62
    } else {
        94
    };
    let bound: u8 = if alnum_only {
        248
    } else {
        188
    };
    let ghost source = entropy@;
    let mut secret = Secret::with_capacity(length);
    let mut made: usize = 0;
    let mut i: usize = 0;
    while i < entropy.len() && made < length
        invariant
            entropy@ == source,
            0 <= i <= source.len(),
            made <= length,
            made == secret@.len(),
            secret@ == drawn(alnum_only, source.take(i as int)),
            count == symbol_count(alnum_only),
            bound == usable_below(alnum_only),
        decreases source.len() - i,
    {
        let b: u8 = entropy[i];
        proof {
            let seen = source.take(i as int);
            assert(source.take(i + 1) =~= seen.push(b));
            seen.lemma_filter_push(b, is_usable(alnum_only));
            let used = seen.filter(is_usable(alnum_only));
            if (b as int) < usable_below(alnum_only) {
                assert(used.push(b).map_values(to_symbol(alnum_only)) =~= used.map_values(
                    to_symbol(alnum_only),
                ).push(symbol(alnum_only, b as int % symbol_count(alnum_only))));
            }
        }
        if b < bound {
            secret.push(symbol_for(alnum_only, b % count));
            made += 1;
        }
        i += 1;
    }
    erase_bytes(entropy);
    proof {
        lemma_drawn_prefix(alnum_only, source, i as int);
        if made < length {
            assert(source.take(i as int) =~= source);
        }
        assert forall|k: int| 0 <= k < secret@.len() implies is_symbol(
            alnum_only,
            #[trigger] secret@[k],
        ) by {
            lemma_drawn_symbols(alnum_only, source.take(i as int), k);
        }
    }
    if made < length {
        Err(GenerationError::EntropyExhausted)
    } else {
        Ok(secret)
    }
}

/// The secret for what the source of random bytes has given: without random
/// bytes there is none, and else it is drawn from them as [`draw`] says.
pub fn generate_from(spec: &GenerationSpec, entropy: Option<Vec<u8>>) -> (r: Result<
    Secret,
    GenerationError,
>)
    ensures
        result_view(r) == match entropy {
            Some(bytes) => drawn_secret(spec@, bytes@),
            None => Err(GenerationError::EntropyUnavailable),
        },
        r is Ok ==> r.unwrap()@.len() == spec@.length && forall|k: int|
            0 <= k < r.unwrap()@.len() ==> is_symbol(spec@.alnum_only, #[trigger] r.unwrap()@[k]),
{
    match entropy {
        Some(bytes) => {
            let mut bytes = bytes;
            draw(spec, &mut bytes)
        },
        None => Err(GenerationError::EntropyUnavailable),
    }
}

/// A new secret under the policy `spec`, drawn from the random source of the
/// operating system, of which as many bytes are read as
/// [`entropy_needed`] says. Where that source cannot be read, or gives too
/// few usable bytes, there is none. What comes back is what [`generate_from`]
/// makes of what the source gave.
pub fn generate(spec: &GenerationSpec) -> (r: Result<Secret, GenerationError>)
    ensures
        r is Ok ==> r.unwrap()@.len() == spec@.length && forall|k: int|
            0 <= k < r.unwrap()@.len() ==> is_symbol(spec@.alnum_only, #[trigger] r.unwrap()@[k]),
        r is Ok ==> exists|bytes: Seq<u8>|
            bytes.len() == entropy_needed(spec@.length as int) && #[trigger] drawn_secret(spec@, bytes)
                == result_view(r),
        r matches Err(GenerationError::EntropyExhausted) ==> exists|bytes: Seq<u8>|
            bytes.len() == entropy_needed(spec@.length as int) && #[trigger] drawn_secret(spec@, bytes)
                == result_view(r),
{
    let entropy: Option<Vec<u8>> = match os_entropy(spec.entropy_len()) {
        Ok(bytes) => Some(bytes),
        Err(_) => None,
    };
    let ghost given = entropy;
    let r = generate_from(spec, entropy);
    proof {
        if given is Some {
            assert(drawn_secret(spec@, given.unwrap()@) == result_view(r));
        }
    }
    r
}

} // verus!
