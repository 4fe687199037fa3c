//! Utilities: trace identifiers, request signatures, time conversions,
//! rate limiter metrics and the retry decision.

use vstd::prelude::*;

use crate::clock::utc_now_parts;
use crate::error::{Result, SdkError};
use crate::text::{push_char, same_text};

verus! {

// ---------------------------------------------------------------------
// Hexadecimal text
// ---------------------------------------------------------------------

/// The lowercase hexadecimal digit of `d` (below 16).
pub open spec fn hex_digit(d: nat) -> char {
    if d < 10 {
        crate::text::digit_char(d)
    } else if d == 10 {
        'a'
    } else if d == 11 {
        'b'
    } else if d == 12 {
        'c'
    } else if d == 13 {
        'd'
    } else if d == 14 {
        'e'
    } else {
        'f'
    }
}

/// The last `n` hexadecimal digits of `u`, most significant first.
pub open spec fn hex_digits(u: nat, n: nat) -> Seq<char>
    decreases n,
{
    if n == 0 {
        Seq::empty()
    } else {
        hex_digits(u / 16, (n - 1) as nat).push(hex_digit(u % 16))
    }
}

/// Two lowercase hexadecimal digits for each byte, in order (what
/// `hex::encode` gives).
pub open spec fn hex_text(bytes: Seq<u8>) -> Seq<char>
    decreases bytes.len(),
{
    if bytes.len() == 0 {
        Seq::empty()
    } else {
        hex_text(bytes.drop_last()) + hex_digits(bytes.last() as nat, 2)
    }
}

pub proof fn lemma_hex_digits_len(u: nat, n: nat)
    ensures
        hex_digits(u, n).len() == n,
    decreases n,
{
    if n > 0 {
        lemma_hex_digits_len(u / 16, (n - 1) as nat);
    }
}

/// Hexadecimal text has two digits per byte.
pub proof fn lemma_hex_text_len(bytes: Seq<u8>)
    ensures
        hex_text(bytes).len() == 2 * bytes.len(),
    decreases bytes.len(),
{
    if bytes.len() > 0 {
        lemma_hex_text_len(bytes.drop_last());
        lemma_hex_digits_len(bytes.last() as nat, 2);
    }
}

/// The hyphenated lowercase text of a UUID (what `Uuid`'s `Display` gives):
/// its 32 hexadecimal digits in groups of 8, 4, 4, 4 and 12.
pub open spec fn uuid_text(u: u128) -> Seq<char> {
    let h = hex_digits(u as nat, 32);
    h.subrange(0, 8) + seq!['-'] + h.subrange(8, 12) + seq!['-'] + h.subrange(12, 16) + seq!['-']
        + h.subrange(16, 20) + seq!['-'] + h.subrange(20, 32)
}

fn hex_char(d: u128) -> (c: char)
    requires
        d < 16,
    ensures
        c == hex_digit(d as nat),
{
    if d < 10 {
        if d == 0 {
            '0'
        } else if d == 1 {
            '1'
        } else if d == 2 {
            '2'
        } else if d == 3 {
            '3'
        } else if d == 4 {
            '4'
        } else if d == 5 {
            '5'
        } else if d == 6 {
            '6'
        } else if d == 7 {
            '7'
        } else if d == 8 {
            '8'
        } else {
            '9'
        }
    } else if d == 10 {
        'a'
    } else if d == 11 {
        'b'
    } else if d == 12 {
        'c'
    } else if d == 13 {
        'd'
    } else if d == 14 {
        'e'
    } else {
        'f'
    }
}

/// The last `n` hexadecimal digits of `u`, most significant first.
fn hex_digit_vec(u: u128, n: usize) -> (v: Vec<char>)
    ensures
        v@ == hex_digits(u as nat, n as nat),
        v@.len() == n,
    decreases n,
{
    if n == 0 {
        Vec::new()
    } else {
        let mut v = hex_digit_vec(u / 16, n - 1);
        v.push(hex_char(u % 16));
        v
    }
}

/// The hyphenated lowercase text of a UUID.
pub fn uuid_string(u: u128) -> (s: String)
    ensures
        s@ == uuid_text(u),
{
    let h = hex_digit_vec(u, 32);
    let mut s = String::new();
    let mut i: usize = 0;
    while i < 32
        invariant
            i <= 32,
            h@.len() == 32,
            s@ == uuid_prefix(h@, i as int),
        decreases 32 - i,
    {
        if i == 8 || i == 12 || i == 16 || i == 20 {
            push_char(&mut s, '-');
        }
        push_char(&mut s, h[i]);
        i = i + 1;
    }
    assert(uuid_prefix(h@, 32) =~= uuid_text(u)) by {
        lemma_uuid_prefix_full(h@);
    }
    s
}

/// The text of the first `i` digits of `h`, hyphens before digits 8, 12, 16, 20.
spec fn uuid_prefix(h: Seq<char>, i: int) -> Seq<char>
    decreases i,
{
    if i <= 0 {
        Seq::empty()
    } else {
        let before = uuid_prefix(h, i - 1);
        if i - 1 == 8 || i - 1 == 12 || i - 1 == 16 || i - 1 == 20 {
            before.push('-').push(h[i - 1])
        } else {
            before.push(h[i - 1])
        }
    }
}

proof fn lemma_uuid_prefix_plain(h: Seq<char>, base: int, i: int, pre: Seq<char>)
    requires
        0 <= base <= i <= h.len(),
        uuid_prefix(h, base) == pre,
        !(base <= 8 < i),
        !(base <= 12 < i),
        !(base <= 16 < i),
        !(base <= 20 < i),
    ensures
        uuid_prefix(h, i) == pre + h.subrange(base, i),
    decreases i - base,
{
    if i > base {
        lemma_uuid_prefix_plain(h, base, i - 1, pre);
        assert(pre + h.subrange(base, i) =~= (pre + h.subrange(base, i - 1)).push(h[i - 1]));
    } else {
        assert(pre + h.subrange(base, i) =~= pre);
    }
}

proof fn lemma_uuid_prefix_full(h: Seq<char>)
    requires
        h.len() == 32,
    ensures
        uuid_prefix(h, 32) == h.subrange(0, 8) + seq!['-'] + h.subrange(8, 12) + seq!['-']
            + h.subrange(12, 16) + seq!['-'] + h.subrange(16, 20) + seq!['-'] + h.subrange(20, 32),
{
    let e = Seq::<char>::empty();
    assert(uuid_prefix(h, 0) == e);
    lemma_uuid_prefix_plain(h, 0, 8, e);
    let p8 = e + h.subrange(0, 8);
    let p9 = p8.push('-').push(h[8]);
    assert(uuid_prefix(h, 9) == p9);
    lemma_uuid_prefix_plain(h, 9, 12, p9);
    let p12 = p9 + h.subrange(9, 12);
    let p13 = p12.push('-').push(h[12]);
    assert(uuid_prefix(h, 13) == p13);
    lemma_uuid_prefix_plain(h, 13, 16, p13);
    let p16 = p13 + h.subrange(13, 16);
    let p17 = p16.push('-').push(h[16]);
    assert(uuid_prefix(h, 17) == p17);
    lemma_uuid_prefix_plain(h, 17, 20, p17);
    let p20 = p17 + h.subrange(17, 20);
    let p21 = p20.push('-').push(h[20]);
    assert(uuid_prefix(h, 21) == p21);
    lemma_uuid_prefix_plain(h, 21, 32, p21);
    assert(p21 + h.subrange(21, 32) =~= h.subrange(0, 8) + seq!['-'] + h.subrange(8, 12) + seq![
        '-',
    ] + h.subrange(12, 16) + seq!['-'] + h.subrange(16, 20) + seq!['-'] + h.subrange(20, 32));
}

// ---------------------------------------------------------------------
// Trace identifiers
// ---------------------------------------------------------------------

/// A random version-4 UUID (`uuid::Uuid::new_v4().as_u128()`): its version
/// nibble is 4 and its variant bits are `10`, as uuid sets them; the other
/// bits are random.
#[verifier::external_body]
pub(crate) fn random_uuid() -> (u: u128)
    ensures
        (u >> 76u128) & 0xf == 4,
        (u >> 62u128) & 0x3 == 2,
{
    uuid::Uuid::new_v4().as_u128()
}

/// Generate trace ID: the text of a random version-4 UUID.
pub fn generate_trace_id() -> (s: String)
    ensures
        exists|u: u128| (u >> 76u128) & 0xf == 4 && #[trigger] uuid_text(u) == s@,
{
    let u = random_uuid();
    uuid_string(u)
}

// ---------------------------------------------------------------------
// Request signatures
// ---------------------------------------------------------------------

/// The HMAC-SHA256 tag (32 bytes) of `data` under `key`, as
/// `hmac_sha256::HMAC::mac` computes it.
pub uninterp spec fn hmac_sha256_tag(data: Seq<u8>, key: Seq<u8>) -> Seq<u8>;

/// `hmac_sha256::HMAC::mac(data, key)`: the 32-byte HMAC-SHA256 tag.
#[verifier::external_body]
fn hmac_mac(data: &[u8], key: &[u8]) -> (tag: Vec<u8>)
    ensures
        tag@ == hmac_sha256_tag(data@, key@),
        tag@.len() == 32,
{
    hmac_sha256::HMAC::mac(data, key).to_vec()
}

/// `hex::encode`: two lowercase hexadecimal digits per byte.
#[verifier::external_body]
fn hex_encode(bytes: &[u8]) -> (s: String)
    ensures
        s@ == hex_text(bytes@),
{
    hex::encode(bytes)
}

/// The signature of `data` under `secret`: the lowercase hexadecimal text
/// of the HMAC-SHA256 tag of the UTF-8 bytes of `data` keyed by those of
/// `secret`.
pub open spec fn signature_text(secret: Seq<char>, data: Seq<char>) -> Seq<char> {
    hex_text(hmac_sha256_tag(vstd::utf8::encode_utf8(data), vstd::utf8::encode_utf8(secret)))
}

/// Whether `signature` is accepted for `data` under `secret`.
pub open spec fn signature_accepted(secret: Seq<char>, data: Seq<char>, signature: Seq<char>) -> bool {
    signature == signature_text(secret, data)
}

/// Request signature generation for authentication
pub struct SignatureGenerator;

impl SignatureGenerator {
    /// Generate HMAC-SHA256 signature
    pub fn generate_signature(secret: &str, data: &str) -> (s: String)
        ensures
            s@ == signature_text(secret@, data@),
            s@.len() == 64,
    {
        let tag = hmac_mac(data.as_bytes(), secret.as_bytes());
        proof {
            lemma_hex_text_len(tag@);
        }
        hex_encode(tag.as_slice())
    }

    /// Verify signature: accepted exactly when it is the signature of `data`
    /// under `secret`.
    pub fn verify_signature(secret: &str, data: &str, signature: &str) -> (r: Result<()>)
        ensures
            r is Ok <==> signature_accepted(secret@, data@, signature@),
            r matches Err(e) ==> e matches SdkError::AuthenticationError(m) && m@
                == "Signature verification failed"@,
    {
        let calculated = Self::generate_signature(secret, data);
        if same_text(calculated.as_str(), signature) {
            Ok(())
        } else {
            Err(SdkError::AuthenticationError("Signature verification failed".to_owned()))
        }
    }
}

/// A signature made by `generate_signature` passes `verify_signature` with
/// the same secret and data, and any other text is refused.
pub proof fn signature_round_trip(secret: Seq<char>, data: Seq<char>, other: Seq<char>)
    requires
        other != signature_text(secret, data),
    ensures
        signature_accepted(secret, data, signature_text(secret, data)),
        !signature_accepted(secret, data, other),
{
}

// ---------------------------------------------------------------------
// Time utilities
// ---------------------------------------------------------------------

/// Time utilities
pub struct TimeUtils;

impl TimeUtils {
    /// Get current UTC timestamp: whole seconds since the Unix epoch, taken
    /// as a `u64` (a time before 1970 wraps around).
    pub fn now_utc_secs() -> (t: u64)
        ensures
            exists|secs: i64| t == #[trigger] (secs as u64),
    {
        let (secs, _) = utc_now_parts();
        secs as u64
    }

    /// Convert seconds to milliseconds
    pub fn secs_to_millis(secs: u64) -> (ms: u64)
        requires
            secs * 1000 <= u64::MAX,
        ensures
            ms == secs * 1000,
    {
        secs * 1000
    }

    /// Convert milliseconds to (whole) seconds
    pub fn millis_to_secs(millis: u64) -> (secs: u64)
        ensures
            secs == millis / 1000,
    {
        millis / 1000
    }
}

// ---------------------------------------------------------------------
// Rate limiter metrics
// ---------------------------------------------------------------------

/// Counts of requests seen and rejected by a rate limiter.
pub struct RateLimiterMetrics {
    total_requests: u64,
    rejected_requests: u64,
}

/// `n + 1`, wrapping around at `u64::MAX` (as an atomic `fetch_add` does).
pub open spec fn next_count(n: u64) -> u64 {
    if n == u64::MAX {
        0
    } else {
        (n + 1) as u64
    }
}

impl RateLimiterMetrics {
    /// Requests recorded.
    pub closed spec fn total(&self) -> u64 {
        self.total_requests
    }

    /// Rejections recorded.
    pub closed spec fn rejected(&self) -> u64 {
        self.rejected_requests
    }

    /// Create new metrics
    pub fn new() -> (m: Self)
        ensures
            m.total() == 0,
            m.rejected() == 0,
    {
        Self { total_requests: 0, rejected_requests: 0 }
    }

    /// Record request
    pub fn record_request(&mut self)
        ensures
            final(self).total() == next_count(old(self).total()),
            final(self).rejected() == old(self).rejected(),
    {
        self.total_requests = self.total_requests.wrapping_add(1);
    }

    /// Record rejection
    pub fn record_rejection(&mut self)
        ensures
            final(self).rejected() == next_count(old(self).rejected()),
            final(self).total() == old(self).total(),
    {
        self.rejected_requests = self.rejected_requests.wrapping_add(1);
    }

    /// Get total requests
    pub fn total_requests(&self) -> (n: u64)
        ensures
            n == self.total(),
    {
        self.total_requests
    }

    /// Get rejected requests
    pub fn rejected_requests(&self) -> (n: u64)
        ensures
            n == self.rejected(),
    {
        self.rejected_requests
    }
}

impl Default for RateLimiterMetrics {
    fn default() -> (m: Self)
        ensures
            m.total() == 0,
            m.rejected() == 0,
    {
        Self::new()
    }
}

// ---------------------------------------------------------------------
// Retry decision
// ---------------------------------------------------------------------

/// What to do after an attempt failed.
#[derive(Debug)]
pub enum RetryStep {
    /// Wait for the backoff of attempt `attempt`, then try again.
    Retry { attempt: u32 },
    /// Give up with this error.
    Fail(SdkError),
}

/// Whether `step` is the right step after attempt `attempt` failed with
/// `error`, with at most `max_attempts` attempts: an error that is not worth
/// retrying is given back as it is; a retryable one is retried while
/// attempts remain, and otherwise reported as `RetryExhausted`.
pub open spec fn is_next_step(attempt: u32, max_attempts: u32, error: SdkError, step: RetryStep) -> bool {
    if !error.retryable() {
        step == RetryStep::Fail(error)
    } else if attempt + 1 < max_attempts {
        step == (RetryStep::Retry { attempt: (attempt + 1) as u32 })
    } else {
        step matches RetryStep::Fail(SdkError::RetryExhausted { attempts, reason }) && attempts
            == attempt + 1 && reason@ == error.message()
    }
}

/// Retry helper
pub struct RetryHelper;

impl RetryHelper {
    /// The step after attempt number `attempt` (counted from 0) failed with
    /// `error`, when at most `max_attempts` attempts are made: an error that
    /// is not retryable is returned as it is; a retryable one is retried while
    /// attempts remain; otherwise the helper gives up with `RetryExhausted`,
    /// counting the attempts made and quoting the error.
    pub fn next_step(attempt: u32, max_attempts: u32, error: SdkError) -> (step: RetryStep)
        requires
            attempt < max_attempts,
        ensures
            is_next_step(attempt, max_attempts, error, step),
    {
        if !error.is_retryable() {
            RetryStep::Fail(error)
        } else if attempt < max_attempts - 1 {
            RetryStep::Retry { attempt: attempt + 1 }
        } else {
            RetryStep::Fail(
                SdkError::RetryExhausted { attempts: attempt + 1, reason: error.to_string() },
            )
        }
    }
}

/// No retry loop driven by `next_step` makes more than `max_attempts`
/// attempts: a retry always numbers an attempt that is still allowed, giving
/// up on a retryable error reports at most `max_attempts` attempts, and an
/// error that is not retryable ends the loop unchanged.
pub proof fn retries_stay_within_limit(attempt: u32, max_attempts: u32, error: SdkError, step: RetryStep)
    requires
        attempt < max_attempts,
        is_next_step(attempt, max_attempts, error, step),
    ensures
        step matches RetryStep::Retry { attempt: next } ==> next < max_attempts && error.retryable(),
        error.retryable() ==> (step matches RetryStep::Fail(SdkError::RetryExhausted { attempts, .. })
            ==> attempts <= max_attempts),
        !error.retryable() ==> step == RetryStep::Fail(error),
{
}

} // verus!
