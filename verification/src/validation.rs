//! Request validation and sanitization.

use std::collections::HashMap;
use vstd::prelude::*;

use crate::error::{Result, SdkError};
use crate::string_map::StringMap;
use crate::text::{
    append, chars_of, count_char, has_prefix, lemma_removal_shrinks, occurs, same_text, lemma_count_zero, lemma_replaced_doubles_count,
    lemma_replaced_keeps_count, lemma_replaced_removes_char, push_decimal, replace_all, replaced,
    starts_with, trim_text, trimmed,
};

verus! {

// ---------------------------------------------------------------------
// Trusted items: regex, uuid, ammonia, char classes, HashMap lookup
// ---------------------------------------------------------------------

/// Whether `regex::Regex::new` accepts the pattern.
pub uninterp spec fn regex_compiles(pattern: Seq<char>) -> bool;

/// Whether `regex::Regex::is_match` finds a match of the compiled pattern in the text.
pub uninterp spec fn regex_finds(pattern: Seq<char>, text: Seq<char>) -> bool;

/// The text of the `regex::Error` that `regex::Regex::new` reports for the pattern.
pub uninterp spec fn regex_error_text(pattern: Seq<char>) -> Seq<char>;

/// Whether `uuid::Uuid::parse_str` accepts the text.
pub uninterp spec fn uuid_text_valid(text: Seq<char>) -> bool;

/// What `ammonia::clean` makes of the input (default white list of tags and attributes).
pub uninterp spec fn html_cleaned(input: Seq<char>) -> Seq<char>;

/// What an `ammonia::Builder` with no allowed tags makes of the input.
pub uninterp spec fn html_text_only(input: Seq<char>) -> Seq<char>;

/// Whether `char::is_alphanumeric` holds (Unicode `Alphabetic` or `Numeric`).
pub uninterp spec fn alphanumeric(c: char) -> bool;

/// `regex::Regex::new(pattern)` followed by `is_match(text)`: `None` when
/// the pattern does not compile, else whether the text has a match.
#[verifier::external_body]
fn regex_match(pattern: &str, text: &str) -> (r: Option<bool>)
    ensures
        r == (if regex_compiles(pattern@) {
            Some(regex_finds(pattern@, text@))
        } else {
            None
        }),
{
    match regex::Regex::new(pattern) {
        Ok(re) => Some(re.is_match(text)),
        Err(_) => None,
    }
}

/// `regex::Regex::new(pattern)`, keeping only whether it compiled and, if
/// not, the text of its error.
#[verifier::external_body]
fn regex_check(pattern: &str) -> (r: core::result::Result<(), String>)
    ensures
        r is Ok <==> regex_compiles(pattern@),
        r matches Err(t) ==> t@ == regex_error_text(pattern@),
{
    match regex::Regex::new(pattern) {
        Ok(_) => Ok(()),
        Err(e) => Err(e.to_string()),
    }
}

/// `uuid::Uuid::parse_str(text).is_ok()`.
#[verifier::external_body]
fn uuid_parses(text: &str) -> (b: bool)
    ensures
        b == uuid_text_valid(text@),
{
    uuid::Uuid::parse_str(text).is_ok()
}

/// `ammonia::clean`: HTML with everything outside ammonia's default white
/// list of tags, attributes and URL schemes removed.
#[verifier::external_body]
fn ammonia_clean(input: &str) -> (r: String)
    ensures
        r@ == html_cleaned(input@),
{
    ammonia::clean(input)
}

/// `ammonia::Builder::new().tags(HashSet::new()).clean(input).to_string()`:
/// the input with every tag removed.
#[verifier::external_body]
fn ammonia_strip_tags(input: &str) -> (r: String)
    ensures
        r@ == html_text_only(input@),
{
    ammonia::Builder::new().tags(std::collections::HashSet::new()).clean(input).to_string()
}

/// `char::is_alphanumeric`.
#[verifier::external_body]
fn is_alphanumeric(c: char) -> (b: bool)
    ensures
        b == alphanumeric(c),
{
    c.is_alphanumeric()
}

/// Whether some key of `m` has the characters `key`.
pub open spec fn has_text_key(m: Map<String, String>, key: Seq<char>) -> bool {
    exists|k: String| #[trigger] m.contains_key(k) && k@ == key
}

/// `HashMap::get`: the value stored under a key equal to `key`, if any.
#[verifier::external_body]
fn lookup<'a>(data: &'a HashMap<String, String>, key: &String) -> (r: Option<&'a String>)
    ensures
        r is Some <==> has_text_key(data@, key@),
        r matches Some(v) ==> forall|k: String|
            #[trigger] data@.contains_key(k) && k@ == key@ ==> data@[k] == *v,
{
    data.get(key)
}

// ---------------------------------------------------------------------
// Validators
// ---------------------------------------------------------------------

/// A rule that a text value must satisfy.
pub trait Validator {
    /// The values that pass.
    spec fn accepts(&self, value: Seq<char>) -> bool;

    /// Whether `e` is the error this rule gives for a value it refuses.
    spec fn rejects_with(&self, value: Seq<char>, e: SdkError) -> bool;

    /// Validate value
    fn validate(&self, value: &str) -> (r: Result<()>)
        ensures
            r is Ok <==> self.accepts(value@),
            r matches Err(e) ==> self.rejects_with(value@, e),
    ;
}

/// The validation error carrying the given message.
pub open spec fn rejected_with(r: Result<()>, msg: Seq<char>) -> bool {
    r matches Err(SdkError::ValidationError(m)) && m@ == msg
}

/// The regular expression of an e-mail address; `email_address` below
/// writes out the set of texts that it describes.
pub open spec fn email_pattern() -> Seq<char> {
    "^[a-zA-Z0-9.!#$%&'*+/=?^_`{|}~-]+@[a-zA-Z0-9](?:[a-zA-Z0-9-]{0,61}[a-zA-Z0-9])?(?:\\.[a-zA-Z0-9](?:[a-zA-Z0-9-]{0,61}[a-zA-Z0-9])?)*$"@
}

/// An ASCII letter or digit.
pub open spec fn ascii_alnum(c: char) -> bool {
    ('a' <= c && c <= 'z') || ('A' <= c && c <= 'Z') || ('0' <= c && c <= '9')
}

/// A character allowed before the `@` of an address: an ASCII letter or
/// digit, or one of `.!#$%&'*+/=?^_` and the backtick, `{|}~-`.
pub open spec fn local_char(c: char) -> bool {
    ||| ascii_alnum(c)
    ||| c == '.' || c == '!' || c == '#' || c == '$' || c == '%' || c == '&' || c == '\''
    ||| c == '*' || c == '+' || c == '/' || c == '=' || c == '?' || c == '^' || c == '_'
    ||| c == '`' || c == '{' || c == '|' || c == '}' || c == '~' || c == '-'
}

/// A domain label: 1 to 63 ASCII letters, digits and hyphens, beginning and
/// ending with a letter or digit.
pub open spec fn domain_label(l: Seq<char>) -> bool {
    &&& 1 <= l.len() <= 63
    &&& ascii_alnum(l[0])
    &&& ascii_alnum(l[l.len() - 1])
    &&& forall|i: int| 0 <= i < l.len() ==> ascii_alnum(#[trigger] l[i]) || l[i] == '-'
}

/// Position of the first `.` in `d`, or its length when there is none.
pub open spec fn first_dot(d: Seq<char>) -> nat
    decreases d.len(),
{
    if d.len() == 0 {
        0
    } else if d[0] == '.' {
        0
    } else {
        1 + first_dot(d.skip(1))
    }
}

/// A domain name: labels separated by single dots.
pub open spec fn domain_name(d: Seq<char>) -> bool
    decreases d.len(),
{
    let i = first_dot(d);
    &&& domain_label(d.take(i as int))
    &&& i < d.len() ==> domain_name(d.skip(i + 1 as int))
}

/// An e-mail address: a non-empty local part of allowed characters, an
/// `@`, and a domain name.
pub open spec fn email_address(s: Seq<char>) -> bool {
    exists|i: int|
        0 < i < s.len() && #[trigger] s[i] == '@' && (forall|k: int|
            0 <= k < i ==> local_char(#[trigger] s[k])) && domain_name(s.skip(i + 1))
}

fn is_ascii_alnum(c: char) -> (b: bool)
    ensures
        b == ascii_alnum(c),
{
    ('a' <= c && c <= 'z') || ('A' <= c && c <= 'Z') || ('0' <= c && c <= '9')
}

fn is_local_char(c: char) -> (b: bool)
    ensures
        b == local_char(c),
{
    is_ascii_alnum(c) || c == '.' || c == '!' || c == '#' || c == '$' || c == '%' || c == '&'
        || c == '\'' || c == '*' || c == '+' || c == '/' || c == '=' || c == '?' || c == '^'
        || c == '_' || c == '`' || c == '{' || c == '|' || c == '}' || c == '~' || c == '-'
}

/// Whether `v[a..b]` is a domain label.
fn is_domain_label(v: &Vec<char>, a: usize, b: usize) -> (r: bool)
    requires
        a <= b <= v@.len(),
    ensures
        r == domain_label(v@.subrange(a as int, b as int)),
{
    let ghost l = v@.subrange(a as int, b as int);
    if b - a < 1 || b - a > 63 {
        return false;
    }
    if !is_ascii_alnum(v[a]) || !is_ascii_alnum(v[b - 1]) {
        assert(l[0] == v@[a as int]);
        assert(l[l.len() - 1] == v@[b - 1]);
        return false;
    }
    let mut k = a;
    while k < b
        invariant
            a <= k <= b <= v@.len(),
            l == v@.subrange(a as int, b as int),
            forall|i: int| 0 <= i < k - a ==> ascii_alnum(#[trigger] l[i]) || l[i] == '-',
        decreases b - k,
    {
        let c = v[k];
        assert(l[k - a] == c);
        if !(is_ascii_alnum(c) || c == '-') {
            return false;
        }
        k = k + 1;
    }
    assert(l[0] == v@[a as int]);
    assert(l[l.len() - 1] == v@[b - 1]);
    true
}

proof fn lemma_first_dot(d: Seq<char>, m: int)
    requires
        0 <= m <= d.len(),
        forall|k: int| 0 <= k < m ==> d[k] != '.',
        m == d.len() || d[m] == '.',
    ensures
        first_dot(d) == m,
    decreases m,
{
    if m > 0 {
        lemma_first_dot(d.skip(1), m - 1);
    }
}

/// Whether `v[from..]` is a domain name.
fn is_domain_name(v: &Vec<char>, from: usize) -> (r: bool)
    requires
        from <= v@.len(),
    ensures
        r == domain_name(v@.skip(from as int)),
    decreases v@.len() - from,
{
    let ghost d = v@.skip(from as int);
    let mut j = from;
    while j < v.len() && v[j] != '.'
        invariant
            from <= j <= v@.len(),
            forall|k: int| from <= k < j ==> v@[k] != '.',
        decreases v@.len() - j,
    {
        j = j + 1;
    }
    proof {
        lemma_first_dot(d, j - from);
        assert(d.take(j - from) =~= v@.subrange(from as int, j as int));
        if j < v@.len() {
            assert(d.skip(j - from + 1) =~= v@.skip(j + 1));
        }
    }
    if !is_domain_label(v, from, j) {
        return false;
    }
    if j == v.len() {
        true
    } else {
        is_domain_name(v, j + 1)
    }
}

/// Email validator
pub struct EmailValidator;

impl Validator for EmailValidator {
    open spec fn accepts(&self, value: Seq<char>) -> bool {
        email_address(value)
    }

    open spec fn rejects_with(&self, value: Seq<char>, e: SdkError) -> bool {
        e matches SdkError::ValidationError(m) && m@ == "Invalid email format"@
    }

    fn validate(&self, value: &str) -> (r: Result<()>)
        ensures
            r is Err ==> rejected_with(r, "Invalid email format"@),
    {
        let v = chars_of(value);
        let mut k: usize = 0;
        while k < v.len() && v[k] != '@'
            invariant
                k <= v@.len(),
                v@ == value@,
                forall|i: int| 0 <= i < k ==> local_char(#[trigger] v@[i]),
            decreases v@.len() - k,
        {
            if !is_local_char(v[k]) {
                proof {
                    assert forall|i: int|
                        0 < i < v@.len() && #[trigger] v@[i] == '@' && (forall|q: int|
                            0 <= q < i ==> local_char(#[trigger] v@[q])) implies !domain_name(
                        v@.skip(i + 1),
                    ) by {
                        assert(!local_char('@'));
                        if i <= k {
                            if i < k {
                                assert(local_char(v@[i]));
                            }
                        } else {
                            assert(local_char(v@[k as int]));
                        }
                    }
                }
                return Err(SdkError::validation("Invalid email format"));
            }
            k = k + 1;
        }
        if k == 0 || k == v.len() {
            proof {
                assert forall|i: int|
                    0 < i < v@.len() && #[trigger] v@[i] == '@' && (forall|q: int|
                        0 <= q < i ==> local_char(#[trigger] v@[q])) implies !domain_name(
                    v@.skip(i + 1),
                ) by {
                    assert(!local_char('@'));
                    if k == 0 {
                        assert(local_char(v@[0]));
                    } else {
                        assert(i < k);
                    }
                }
            }
            return Err(SdkError::validation("Invalid email format"));
        }
        let ok = is_domain_name(&v, k + 1);
        proof {
            assert forall|i: int|
                0 < i < v@.len() && #[trigger] v@[i] == '@' && (forall|q: int|
                    0 <= q < i ==> local_char(#[trigger] v@[q])) implies i == k by {
                assert(!local_char('@'));
                if i < k {
                } else if i > k {
                    assert(local_char(v@[k as int]));
                }
            }
        }
        if ok {
            Ok(())
        } else {
            Err(SdkError::validation("Invalid email format"))
        }
    }
}

/// Labels joined by single dots.
pub open spec fn dotted(labels: Seq<Seq<char>>) -> Seq<char>
    decreases labels.len(),
{
    if labels.len() == 0 {
        Seq::empty()
    } else if labels.len() == 1 {
        labels[0]
    } else {
        labels[0] + seq!['.'] + dotted(labels.skip(1))
    }
}

/// 1 to 63 ASCII letters, digits and hyphens, beginning and ending with a
/// letter or digit (written out on its own, for the laws below).
pub open spec fn hostname_label(l: Seq<char>) -> bool {
    &&& 1 <= l.len() <= 63
    &&& forall|i: int| 0 <= i < l.len() ==> {
        let c = #[trigger] l[i];
        ||| 'a' <= c <= 'z'
        ||| 'A' <= c <= 'Z'
        ||| '0' <= c <= '9'
        ||| (c == '-' && i != 0 && i != l.len() - 1)
    }
}

proof fn lemma_dotted_domain(labels: Seq<Seq<char>>)
    requires
        labels.len() >= 1,
        forall|j: int| 0 <= j < labels.len() ==> hostname_label(#[trigger] labels[j]),
    ensures
        domain_name(dotted(labels)),
    decreases labels.len(),
{
    let l0 = labels[0];
    assert(hostname_label(l0));
    assert(domain_label(l0)) by {
        assert(l0[0] == l0[0]);
        assert(l0[l0.len() - 1] == l0[l0.len() - 1]);
    }
    assert forall|k: int| 0 <= k < l0.len() implies l0[k] != '.' by {
        assert(hostname_label(l0));
    }
    let d = dotted(labels);
    if labels.len() == 1 {
        lemma_first_dot(d, l0.len() as int);
        assert(d.take(l0.len() as int) =~= l0);
    } else {
        let rest = labels.skip(1);
        assert forall|j: int| 0 <= j < rest.len() implies hostname_label(#[trigger] rest[j]) by {
            assert(rest[j] == labels[j + 1]);
        }
        lemma_dotted_domain(rest);
        assert(d == l0 + seq!['.'] + dotted(rest));
        assert forall|k: int| 0 <= k < l0.len() implies d[k] != '.' by {
            assert(d[k] == l0[k]);
        }
        assert(d[l0.len() as int] == '.');
        lemma_first_dot(d, l0.len() as int);
        assert(d.take(l0.len() as int) =~= l0);
        assert(d.skip(l0.len() + 1 as int) =~= dotted(rest));
    }
}

/// Every address with a non-empty local part of ASCII letters, digits and
/// the characters `.!#$%&'*+/=?^_`, backtick, `{|}~-`, then an `@`, then
/// one or more dot-separated labels of 1 to 63 ASCII letters, digits and
/// hyphens that begin and end with a letter or digit, is accepted (so
/// `user123@example.com` is).
pub proof fn email_accepts_well_formed_addresses(local: Seq<char>, labels: Seq<Seq<char>>)
    requires
        local.len() > 0,
        forall|k: int| 0 <= k < local.len() ==> {
            let c = #[trigger] local[k];
            ||| 'a' <= c <= 'z'
            ||| 'A' <= c <= 'Z'
            ||| '0' <= c <= '9'
            ||| c == '.' || c == '!' || c == '#' || c == '$' || c == '%' || c == '&' || c == '\''
            ||| c == '*' || c == '+' || c == '/' || c == '=' || c == '?' || c == '^' || c == '_'
            ||| c == '`' || c == '{' || c == '|' || c == '}' || c == '~' || c == '-'
        },
        labels.len() >= 1,
        forall|j: int| 0 <= j < labels.len() ==> hostname_label(#[trigger] labels[j]),
    ensures
        EmailValidator.accepts(local + seq!['@'] + dotted(labels)),
{
    lemma_dotted_domain(labels);
    let s = local + seq!['@'] + dotted(labels);
    let i = local.len() as int;
    assert(s[i] == '@');
    assert forall|k: int| 0 <= k < i implies local_char(#[trigger] s[k]) by {
        assert(s[k] == local[k]);
    }
    assert(s.skip(i + 1) =~= dotted(labels));
}

/// A value without an `@`, or whose `@` comes first or last, is refused.
pub proof fn email_refuses_misplaced_at(s: Seq<char>)
    requires
        !s.contains('@') || (s.len() > 0 && (s[0] == '@' || s[s.len() - 1] == '@')),
    ensures
        !EmailValidator.accepts(s),
{
    if EmailValidator.accepts(s) {
        let i = choose|i: int|
            0 < i < s.len() && #[trigger] s[i] == '@' && (forall|k: int|
                0 <= k < i ==> local_char(#[trigger] s[k])) && domain_name(s.skip(i + 1));
        assert(!local_char('@'));
        if s.len() > 0 && s[0] == '@' {
            assert(local_char(s[0]));
        }
        if s.len() > 0 && s[s.len() - 1] == '@' && i != s.len() - 1 {
            let d = s.skip(i + 1);
            assert(d[d.len() - 1] == '@');
            lemma_domain_chars(d);
        }
        if i == s.len() - 1 {
            lemma_domain_chars(s.skip(i + 1));
        }
    }
}

/// A domain name is non-empty and holds no `@`.
proof fn lemma_domain_chars(d: Seq<char>)
    requires
        domain_name(d),
    ensures
        d.len() > 0,
        forall|k: int| 0 <= k < d.len() ==> #[trigger] d[k] != '@',
    decreases d.len(),
{
    let i = first_dot(d);
    lemma_first_dot_bound(d);
    let l = d.take(i as int);
    assert(domain_label(l));
    if i < d.len() {
        lemma_domain_chars(d.skip(i + 1 as int));
        assert forall|k: int| 0 <= k < d.len() implies #[trigger] d[k] != '@' by {
            if k < i {
                assert(d[k] == l[k]);
                assert(ascii_alnum(l[k]) || l[k] == '-');
            } else if k > i {
                assert(d[k] == d.skip(i + 1 as int)[k - i - 1]);
            }
        }
    } else {
        assert forall|k: int| 0 <= k < d.len() implies #[trigger] d[k] != '@' by {
            assert(d[k] == l[k]);
            assert(ascii_alnum(l[k]) || l[k] == '-');
        }
    }
}

proof fn lemma_first_dot_bound(d: Seq<char>)
    ensures
        first_dot(d) <= d.len(),
        first_dot(d) < d.len() ==> d[first_dot(d) as int] == '.',
    decreases d.len(),
{
    if d.len() > 0 && d[0] != '.' {
        lemma_first_dot_bound(d.skip(1));
    }
}

/// URL validator
pub struct UrlValidator;

impl Validator for UrlValidator {
    open spec fn accepts(&self, value: Seq<char>) -> bool {
        has_prefix(value, "http://"@) || has_prefix(value, "https://"@)
    }

    open spec fn rejects_with(&self, value: Seq<char>, e: SdkError) -> bool {
        e matches SdkError::ValidationError(m) && m@ == "Invalid URL format"@
    }

    fn validate(&self, value: &str) -> (r: Result<()>)
        ensures
            r is Err ==> rejected_with(r, "Invalid URL format"@),
    {
        if starts_with(value, "http://") || starts_with(value, "https://") {
            Ok(())
        } else {
            Err(SdkError::validation("Invalid URL format"))
        }
    }
}

/// UUID validator
pub struct UuidValidator;

impl Validator for UuidValidator {
    open spec fn accepts(&self, value: Seq<char>) -> bool {
        uuid_text_valid(value)
    }

    open spec fn rejects_with(&self, value: Seq<char>, e: SdkError) -> bool {
        e matches SdkError::ValidationError(m) && m@ == "Invalid UUID format"@
    }

    fn validate(&self, value: &str) -> (r: Result<()>)
        ensures
            r is Err ==> rejected_with(r, "Invalid UUID format"@),
    {
        if uuid_parses(value) {
            Ok(())
        } else {
            Err(SdkError::validation("Invalid UUID format"))
        }
    }
}

/// Length validator: bounds on the length of the UTF-8 encoding.
pub struct LengthValidator {
    min: usize,
    max: usize,
}

impl LengthValidator {
    /// Create new length validator
    pub fn new(min: usize, max: usize) -> (v: Self)
        ensures
            v.min() == min,
            v.max() == max,
    {
        Self { min, max }
    }

    /// Least accepted length.
    pub closed spec fn min(&self) -> usize {
        self.min
    }

    /// Greatest accepted length.
    pub closed spec fn max(&self) -> usize {
        self.max
    }

    /// The text of the error for values out of bounds.
    pub open spec fn bounds_message(&self) -> Seq<char> {
        "Length must be between "@ + crate::text::decimal(self.min() as nat) + " and "@
            + crate::text::decimal(self.max() as nat)
    }
}

impl Validator for LengthValidator {
    open spec fn accepts(&self, value: Seq<char>) -> bool {
        let len = vstd::utf8::encode_utf8(value).len() as usize;
        self.min() <= len && len <= self.max()
    }

    open spec fn rejects_with(&self, value: Seq<char>, e: SdkError) -> bool {
        e matches SdkError::ValidationError(m) && m@ == self.bounds_message()
    }

    fn validate(&self, value: &str) -> (r: Result<()>)
        ensures
            r is Err ==> rejected_with(r, self.bounds_message()),
    {
        let len = value.len();
        if len >= self.min && len <= self.max {
            Ok(())
        } else {
            let mut m = String::new();
            append(&mut m, "Length must be between ");
            push_decimal(&mut m, self.min as u64);
            append(&mut m, " and ");
            push_decimal(&mut m, self.max as u64);
            assert(m@ =~= self.bounds_message());
            Err(SdkError::ValidationError(m))
        }
    }
}

/// A character that alphanumeric values may hold.
pub open spec fn word_char(c: char) -> bool {
    alphanumeric(c) || c == '_' || c == '-'
}

/// Alphanumeric validator
pub struct AlphanumericValidator;

impl Validator for AlphanumericValidator {
    open spec fn accepts(&self, value: Seq<char>) -> bool {
        forall|i: int| 0 <= i < value.len() ==> word_char(#[trigger] value[i])
    }

    open spec fn rejects_with(&self, value: Seq<char>, e: SdkError) -> bool {
        e matches SdkError::ValidationError(m) && m@ == "Value must contain only alphanumeric characters, hyphens, and underscores"@
    }

    fn validate(&self, value: &str) -> (r: Result<()>)
        ensures
            r is Err ==> rejected_with(
                r,
                "Value must contain only alphanumeric characters, hyphens, and underscores"@,
            ),
    {
        let v = chars_of(value);
        let mut i: usize = 0;
        while i < v.len()
            invariant
                i <= v@.len(),
                v@ == value@,
                forall|j: int| 0 <= j < i ==> word_char(#[trigger] v@[j]),
            decreases v@.len() - i,
        {
            let c = v[i];
            if !(is_alphanumeric(c) || c == '_' || c == '-') {
                return Err(
                    SdkError::validation(
                        "Value must contain only alphanumeric characters, hyphens, and underscores",
                    ),
                );
            }
            i = i + 1;
        }
        Ok(())
    }
}

/// Custom regex validator
pub struct RegexValidator {
    pattern: String,
}

impl RegexValidator {
    /// The pattern that values must match.
    pub closed spec fn pattern(&self) -> Seq<char> {
        self.pattern@
    }

    /// Create new regex validator
    pub fn new(pattern: &str) -> (r: Result<Self>)
        ensures
            r is Ok <==> regex_compiles(pattern@),
            r matches Ok(v) ==> v.pattern() == pattern@,
            r matches Err(e) ==> e matches SdkError::ValidationError(m) && m@ == "Invalid regex pattern: "@
                + regex_error_text(pattern@),
    {
        match regex_check(pattern) {
            Ok(()) => Ok(Self { pattern: pattern.to_owned() }),
            Err(text) => {
                let mut m = String::new();
                append(&mut m, "Invalid regex pattern: ");
                append(&mut m, text.as_str());
                Err(SdkError::ValidationError(m))
            },
        }
    }
}

impl Validator for RegexValidator {
    open spec fn accepts(&self, value: Seq<char>) -> bool {
        regex_compiles(self.pattern()) && regex_finds(self.pattern(), value)
    }

    open spec fn rejects_with(&self, value: Seq<char>, e: SdkError) -> bool {
        e matches SdkError::ValidationError(m) && m@ == "Value does not match pattern"@
    }

    fn validate(&self, value: &str) -> (r: Result<()>)
        ensures
            r is Err ==> rejected_with(r, "Value does not match pattern"@),
    {
        match regex_match(self.pattern.as_str(), value) {
            Some(true) => Ok(()),
            _ => Err(SdkError::validation("Value does not match pattern")),
        }
    }
}

// ---------------------------------------------------------------------
// Request validator
// ---------------------------------------------------------------------

/// A boxed validator accepts what the validator inside accepts.
impl<T: Validator + ?Sized> Validator for Box<T> {
    open spec fn accepts(&self, value: Seq<char>) -> bool {
        (**self).accepts(value)
    }

    open spec fn rejects_with(&self, value: Seq<char>, e: SdkError) -> bool {
        (**self).rejects_with(value, e)
    }

    fn validate(&self, value: &str) -> (r: Result<()>) {
        (**self).validate(value)
    }
}

/// Request validator for complex validation rules: for each field name, the
/// validators that the field's value must pass.
pub struct RequestValidator<V: Validator = Box<dyn Validator>> {
    rules: StringMap<Vec<V>>,
}

/// Every validator in `vs` accepts `value`.
pub open spec fn all_accept<V: Validator>(vs: Seq<V>, value: Seq<char>) -> bool {
    forall|j: int| 0 <= j < vs.len() ==> #[trigger] vs[j].accepts(value)
}

impl RequestValidator {
    /// Create new request validator
    pub fn new() -> (v: Self)
        ensures
            v.rules() == Map::<Seq<char>, Seq<Box<dyn Validator>>>::empty(),
    {
        Self::with_no_rules()
    }
}

impl Default for RequestValidator {
    fn default() -> (v: Self)
        ensures
            v.rules() == Map::<Seq<char>, Seq<Box<dyn Validator>>>::empty(),
    {
        Self::new()
    }
}

impl<V: Validator> RequestValidator<V> {
    /// The validators registered for each field, in the order they were added.
    pub closed spec fn rules(&self) -> Map<Seq<char>, Seq<V>> {
        self.rules@.map_values(|vs: Vec<V>| vs@)
    }

    /// Whether every field of `data` that has rules passes all of them.
    pub open spec fn passes(&self, data: Map<String, String>) -> bool {
        forall|field: Seq<char>, k: String|
            #[trigger] self.rules().contains_key(field) && #[trigger] data.contains_key(k) && k@
                == field ==> all_accept(self.rules()[field], data[k]@)
    }

    /// Whether validator `j` of the rules of `field`, which the entry `k` of
    /// `data` fills, refuses that value with `e` after the earlier validators
    /// of the field accepted it.
    pub open spec fn rule_fails(
        &self,
        data: Map<String, String>,
        field: Seq<char>,
        k: String,
        j: int,
        e: SdkError,
    ) -> bool {
        &&& self.rules().contains_key(field)
        &&& data.contains_key(k)
        &&& k@ == field
        &&& 0 <= j < self.rules()[field].len()
        &&& forall|i: int| 0 <= i < j ==> #[trigger] self.rules()[field][i].accepts(data[k]@)
        &&& !self.rules()[field][j].accepts(data[k]@)
        &&& self.rules()[field][j].rejects_with(data[k]@, e)
    }

    /// A request validator without rules, for any kind of validator.
    pub fn with_no_rules() -> (v: Self)
        ensures
            v.rules() == Map::<Seq<char>, Seq<V>>::empty(),
    {
        let v = Self { rules: StringMap::new() };
        assert(v.rules() =~= Map::<Seq<char>, Seq<V>>::empty());
        v
    }

    /// Add validation rule
    pub fn add_rule(self, field: &str, validator: V) -> (v: Self)
        ensures
            v.rules() == self.rules().insert(
                field@,
                if self.rules().contains_key(field@) {
                    self.rules()[field@].push(validator)
                } else {
                    seq![validator]
                },
            ),
    {
        let mut rules = self.rules;
        let ghost before = rules@;
        let ghost g = validator;
        match rules.position(field) {
            Some(i) => {
                proof {
                    use_type_invariant(&rules);
                    rules.lemma_wf();
                }
                assert(before[field@] == rules.entry_seq()[i as int].1);
                let mut vs = rules.replace_at(i, Vec::new());
                vs.push(validator);
                rules.replace_at(i, vs);
                assert(rules@ =~= before.insert(field@, vs));
                assert(rules@.map_values(|vs: Vec<V>| vs@) =~= before.map_values(
                    |vs: Vec<V>| vs@,
                ).insert(field@, before[field@]@.push(g)));
            },
            None => {
                let mut vs: Vec<V> = Vec::new();
                vs.push(validator);
                assert(vs@ =~= seq![g]);
                rules.insert(field.to_owned(), vs);
                assert(rules@.map_values(|vs: Vec<V>| vs@) =~= before.map_values(
                    |vs: Vec<V>| vs@,
                ).insert(field@, seq![g]));
            },
        }
        Self { rules }
    }

    /// Validate data
    #[verifier::loop_isolation(false)]
    pub fn validate(&self, data: &HashMap<String, String>) -> (r: Result<()>)
        ensures
            r is Ok <==> self.passes(data@),
            r matches Err(e) ==> exists|field: Seq<char>, k: String, j: int| #[trigger]
                self.rule_fails(data@, field, k, j, e),
    {
        proof {
            use_type_invariant(&self.rules);
            self.rules.lemma_wf();
        }
        let ghost entries = self.rules.entry_seq();
        let n = self.rules.len();
        let mut i: usize = 0;
        while i < n
            invariant
                i <= n == entries.len(),
                forall|a: int, k: String|
                    0 <= a < i && #[trigger] data@.contains_key(k) && k@ == #[trigger] entries[a].0@
                        ==> all_accept(entries[a].1@, data@[k]@),
            decreases n - i,
        {
            let (field, validators) = self.rules.entry_at(i);
            assert(self.rules@.contains_key(entries[i as int].0@));
            assert(self.rules()[field@] == validators@);
            match lookup(data, field) {
                Some(value) => {
                    let mut j: usize = 0;
                    while j < validators.len()
                        invariant
                            j <= validators@.len(),
                            forall|b: int| 0 <= b < j ==> #[trigger] validators@[b].accepts(value@),
                        decreases validators@.len() - j,
                    {
                        match validators[j].validate(value.as_str()) {
                            Ok(()) => {},
                            Err(e) => {
                                proof {
                                    let k0 = choose|k: String| #[trigger]
                                        data@.contains_key(k) && k@ == field@;
                                    assert(data@[k0] == *value);
                                    assert(!validators@[j as int].accepts(value@));
                                    assert(self.rules().contains_key(field@));
                                    assert(!all_accept(self.rules()[field@], data@[k0]@));
                                    assert(!self.passes(data@));
                                    assert(self.rule_fails(data@, field@, k0, j as int, e));
                                }
                                return Err(e);
                            },
                        }
                        j = j + 1;
                    }
                },
                None => {},
            }
            i = i + 1;
        }
        assert forall|field: Seq<char>, k: String|
            #[trigger] self.rules().contains_key(field) && #[trigger] data@.contains_key(k) && k@
                == field implies all_accept(self.rules()[field], data@[k]@) by {
            let a = choose|a: int| 0 <= a < entries.len() && entries[a].0@ == field;
            assert(self.rules@[entries[a].0@] == entries[a].1);
        }
        Ok(())
    }
}

/// Adding a rule adds exactly one check: the data that pass afterwards are
/// those that passed before and whose value of the field, if present, the
/// new validator accepts.
pub proof fn add_rule_adds_one_check<V: Validator>(
    before: RequestValidator<V>,
    after: RequestValidator<V>,
    field: Seq<char>,
    validator: V,
    data: Map<String, String>,
)
    requires
        after.rules() == before.rules().insert(
            field,
            if before.rules().contains_key(field) {
                before.rules()[field].push(validator)
            } else {
                seq![validator]
            },
        ),
    ensures
        after.passes(data) <==> before.passes(data) && forall|k: String|
            #[trigger] data.contains_key(k) && k@ == field ==> validator.accepts(data[k]@),
{
    let new_list = after.rules()[field];
    if after.passes(data) {
        assert forall|f: Seq<char>, k: String|
            #[trigger] before.rules().contains_key(f) && #[trigger] data.contains_key(k) && k@ == f
                implies all_accept(before.rules()[f], data[k]@) by {
            assert(after.rules().contains_key(f));
            if f == field {
                assert forall|j: int| 0 <= j < before.rules()[f].len() implies #[trigger]
                    before.rules()[f][j].accepts(data[k]@) by {
                    assert(new_list[j] == before.rules()[f][j]);
                }
            }
        }
        assert forall|k: String| #[trigger] data.contains_key(k) && k@ == field implies validator.accepts(
            data[k]@,
        ) by {
            assert(after.rules().contains_key(field));
            assert(new_list[new_list.len() - 1] == validator);
        }
    }
    if before.passes(data) && forall|k: String|
        #[trigger] data.contains_key(k) && k@ == field ==> validator.accepts(data[k]@) {
        assert forall|f: Seq<char>, k: String|
            #[trigger] after.rules().contains_key(f) && #[trigger] data.contains_key(k) && k@ == f
                implies all_accept(after.rules()[f], data[k]@) by {
            if f == field {
                assert forall|j: int| 0 <= j < new_list.len() implies #[trigger]
                    new_list[j].accepts(data[k]@) by {
                    if j == new_list.len() - 1 {
                        assert(new_list[j] == validator);
                    } else {
                        assert(before.rules().contains_key(f));
                        assert(new_list[j] == before.rules()[f][j]);
                    }
                }
            } else {
                assert(before.rules().contains_key(f));
            }
        }
    }
}

// ---------------------------------------------------------------------
// Sanitizer
// ---------------------------------------------------------------------

/// What `sanitize_sql` makes of its input.
pub open spec fn sql_sanitized(input: Seq<char>) -> Seq<char> {
    let e = Seq::<char>::empty();
    replaced(
        replaced(
            replaced(
                replaced(replaced(input, seq!['\''], seq!['\'', '\'']), seq![';'], e),
                seq!['-', '-'],
                e,
            ),
            seq!['/', '*'],
            e,
        ),
        seq!['*', '/'],
        e,
    )
}

/// One pass of path sanitizing: removes `../`, `..\`, `./` and `.\`, in
/// that order.
pub open spec fn path_pass(input: Seq<char>) -> Seq<char> {
    let e = Seq::<char>::empty();
    replaced(
        replaced(
            replaced(replaced(input, seq!['.', '.', '/'], e), seq!['.', '.', '\\'], e),
            seq!['.', '/'],
            e,
        ),
        seq!['.', '\\'],
        e,
    )
}

/// What `sanitize_path` makes of its input: passes are repeated until one
/// removes nothing.
pub open spec fn path_sanitized(input: Seq<char>) -> Seq<char>
    decreases input.len(),
{
    let t = path_pass(input);
    if t.len() < input.len() {
        path_sanitized(t)
    } else {
        input
    }
}

/// A pass never lengthens the text, and a pass that keeps the length
/// changes nothing: then none of the four sequences occurs in the text.
proof fn lemma_path_pass(s: Seq<char>)
    ensures
        path_pass(s).len() <= s.len(),
        path_pass(s).len() == s.len() ==> {
            &&& path_pass(s) == s
            &&& !occurs(s, seq!['.', '.', '/'])
            &&& !occurs(s, seq!['.', '.', '\\'])
            &&& !occurs(s, seq!['.', '/'])
            &&& !occurs(s, seq!['.', '\\'])
        },
{
    let e = Seq::<char>::empty();
    let a = replaced(s, seq!['.', '.', '/'], e);
    let b = replaced(a, seq!['.', '.', '\\'], e);
    let c = replaced(b, seq!['.', '/'], e);
    lemma_removal_shrinks(s, seq!['.', '.', '/']);
    lemma_removal_shrinks(a, seq!['.', '.', '\\']);
    lemma_removal_shrinks(b, seq!['.', '/']);
    lemma_removal_shrinks(c, seq!['.', '\\']);
}

/// Path sanitizing leaves no `../` nor `..\` (nor `./`, `.\`) behind.
pub proof fn sanitize_path_leaves_no_traversal(input: Seq<char>)
    ensures
        !occurs(path_sanitized(input), seq!['.', '.', '/']),
        !occurs(path_sanitized(input), seq!['.', '.', '\\']),
        !occurs(path_sanitized(input), seq!['.', '/']),
        !occurs(path_sanitized(input), seq!['.', '\\']),
    decreases input.len(),
{
    lemma_path_pass(input);
    if path_pass(input).len() < input.len() {
        sanitize_path_leaves_no_traversal(path_pass(input));
    }
}

/// After SQL sanitizing no `;` is left.
pub proof fn sanitize_sql_removes_semicolons(input: Seq<char>)
    ensures
        count_char(sql_sanitized(input), ';') == 0,
        !sql_sanitized(input).contains(';'),
{
    let e = Seq::<char>::empty();
    let a = replaced(input, seq!['\''], seq!['\'', '\'']);
    let b = replaced(a, seq![';'], e);
    let c = replaced(b, seq!['-', '-'], e);
    let d = replaced(c, seq!['/', '*'], e);
    lemma_replaced_removes_char(a, ';');
    assert(count_char(e, ';') == 0);
    assert(count_char(seq!['-', '-'], ';') == 0) by {
        reveal_with_fuel(count_char, 3);
        assert(seq!['-', '-'].skip(1) =~= seq!['-']);
        assert(seq!['-'].skip(1) =~= e);
    }
    assert(count_char(seq!['/', '*'], ';') == 0) by {
        reveal_with_fuel(count_char, 3);
        assert(seq!['/', '*'].skip(1) =~= seq!['*']);
        assert(seq!['*'].skip(1) =~= e);
    }
    assert(count_char(seq!['*', '/'], ';') == 0) by {
        reveal_with_fuel(count_char, 3);
        assert(seq!['*', '/'].skip(1) =~= seq!['/']);
        assert(seq!['/'].skip(1) =~= e);
    }
    lemma_replaced_keeps_count(b, seq!['-', '-'], e, ';');
    lemma_replaced_keeps_count(c, seq!['/', '*'], e, ';');
    lemma_replaced_keeps_count(d, seq!['*', '/'], e, ';');
    lemma_count_zero(sql_sanitized(input), ';');
}

/// SQL sanitizing doubles every single quote: the output holds exactly twice
/// as many `'` as the input.
pub proof fn sanitize_sql_doubles_quotes(input: Seq<char>)
    ensures
        count_char(sql_sanitized(input), '\'') == 2 * count_char(input, '\''),
{
    let q = '\'';
    let e = Seq::<char>::empty();
    let a = replaced(input, seq![q], seq![q, q]);
    let b = replaced(a, seq![';'], e);
    let c = replaced(b, seq!['-', '-'], e);
    let d = replaced(c, seq!['/', '*'], e);
    lemma_replaced_doubles_count(input, q);
    assert(count_char(e, q) == 0);
    assert(count_char(seq![';'], q) == 0) by {
        assert(seq![';'].skip(1) =~= e);
    }
    assert(count_char(seq!['-', '-'], q) == 0) by {
        reveal_with_fuel(count_char, 3);
        assert(seq!['-', '-'].skip(1) =~= seq!['-']);
        assert(seq!['-'].skip(1) =~= e);
    }
    assert(count_char(seq!['/', '*'], q) == 0) by {
        reveal_with_fuel(count_char, 3);
        assert(seq!['/', '*'].skip(1) =~= seq!['*']);
        assert(seq!['*'].skip(1) =~= e);
    }
    assert(count_char(seq!['*', '/'], q) == 0) by {
        reveal_with_fuel(count_char, 3);
        assert(seq!['*', '/'].skip(1) =~= seq!['/']);
        assert(seq!['/'].skip(1) =~= e);
    }
    lemma_replaced_keeps_count(a, seq![';'], e, q);
    lemma_replaced_keeps_count(b, seq!['-', '-'], e, q);
    lemma_replaced_keeps_count(c, seq!['/', '*'], e, q);
    lemma_replaced_keeps_count(d, seq!['*', '/'], e, q);
}

/// Sanitizer for input sanitization
pub struct Sanitizer;

impl Sanitizer {
    /// Sanitize HTML by removing all dangerous tags and attributes
    /// (ammonia's default white list).
    pub fn sanitize_html(input: &str) -> (r: String)
        ensures
            r@ == html_cleaned(input@),
    {
        ammonia_clean(input)
    }

    /// Sanitize HTML by stripping ALL tags, returning plain text only.
    pub fn strip_all_html(input: &str) -> (r: String)
        ensures
            r@ == html_text_only(input@),
    {
        ammonia_strip_tags(input)
    }

    /// Sanitize SQL special characters: doubles every `'`, then removes `;`,
    /// `--`, `/*` and `*/`, in that order.
    pub fn sanitize_sql(input: &str) -> (r: String)
        ensures
            r@ == sql_sanitized(input@),
    {
        proof {
            reveal_strlit("'");
            reveal_strlit("''");
            reveal_strlit(";");
            reveal_strlit("");
            reveal_strlit("--");
            reveal_strlit("/*");
            reveal_strlit("*/");
        }
        assert("''"@ =~= seq!['\'', '\'']);
        let a = replace_all(input, "'", "''");
        let b = replace_all(a.as_str(), ";", "");
        let c = replace_all(b.as_str(), "--", "");
        let d = replace_all(c.as_str(), "/*", "");
        let e = replace_all(d.as_str(), "*/", "");
        assert(";"@ =~= seq![';']);
        assert("'"@ =~= seq!['\'']);
        assert("--"@ =~= seq!['-', '-']);
        assert("/*"@ =~= seq!['/', '*']);
        assert("*/"@ =~= seq!['*', '/']);
        assert(""@ =~= Seq::<char>::empty());
        e
    }

    /// Sanitize path to prevent directory traversal: removes `../`, `..\`,
    /// `./` and `.\`, in that order, and repeats until nothing is removed.
    pub fn sanitize_path(input: &str) -> (r: String)
        ensures
            r@ == path_sanitized(input@),
    {
        let mut cur = input.to_owned();
        loop
            invariant
                path_sanitized(cur@) == path_sanitized(input@),
            decreases cur@.len(),
        {
            let next = Self::path_pass_once(cur.as_str());
            proof {
                lemma_path_pass(cur@);
            }
            if same_text(next.as_str(), cur.as_str()) {
                return cur;
            }
            cur = next;
        }
    }

    /// One pass of path sanitizing.
    fn path_pass_once(input: &str) -> (r: String)
        ensures
            r@ == path_pass(input@),
    {
        proof {
            reveal_strlit("../");
            reveal_strlit("..\\");
            reveal_strlit("./");
            reveal_strlit(".\\");
            reveal_strlit("");
        }
        let a = replace_all(input, "../", "");
        let b = replace_all(a.as_str(), "..\\", "");
        let c = replace_all(b.as_str(), "./", "");
        let d = replace_all(c.as_str(), ".\\", "");
        assert("../"@ =~= seq!['.', '.', '/']);
        assert("..\\"@ =~= seq!['.', '.', '\\']);
        assert("./"@ =~= seq!['.', '/']);
        assert(".\\"@ =~= seq!['.', '\\']);
        assert(""@ =~= Seq::<char>::empty());
        d
    }

    /// Trim whitespace
    pub fn trim(input: &str) -> (r: String)
        ensures
            r@ == trimmed(input@),
    {
        trim_text(input)
    }
}

} // verus!
