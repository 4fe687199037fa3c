//! Text building blocks: decimal rendering, prefix tests, substring
//! replacement, joining and trimming, each stated over character sequences.

use vstd::prelude::*;
use vstd::string::StringExecFns;

verus! {

// ---------------------------------------------------------------------
// Trusted primitives of std
// ---------------------------------------------------------------------

/// `String::push`: appends one character.
#[verifier::external_body]
pub(crate) fn push_char(s: &mut String, c: char)
    ensures
        final(s)@ == old(s)@.push(c),
{
    s.push(c);
}

/// Whether a character has the Unicode `White_Space` property (what
/// `char::is_whitespace` tests): U+0009 to U+000D, U+0020, U+0085, U+00A0,
/// U+1680, U+2000 to U+200A, U+2028, U+2029, U+202F, U+205F and U+3000.
pub open spec fn white_space(c: char) -> bool {
    let n = c as u32;
    ||| 0x9 <= n <= 0xd
    ||| n == 0x20
    ||| n == 0x85
    ||| n == 0xa0
    ||| n == 0x1680
    ||| 0x2000 <= n <= 0x200a
    ||| n == 0x2028
    ||| n == 0x2029
    ||| n == 0x202f
    ||| n == 0x205f
    ||| n == 0x3000
}

/// Whether the character is white space.
fn is_white_space(c: char) -> (b: bool)
    ensures
        b == white_space(c),
{
    let n = c as u32;
    (0x9 <= n && n <= 0xd) || n == 0x20 || n == 0x85 || n == 0xa0 || n == 0x1680 || (0x2000 <= n
        && n <= 0x200a) || n == 0x2028 || n == 0x2029 || n == 0x202f || n == 0x205f || n == 0x3000
}

// ---------------------------------------------------------------------
// Characters of a string
// ---------------------------------------------------------------------

/// The characters of `s`, in order.
pub fn chars_of(s: &str) -> (v: Vec<char>)
    ensures
        v@ == s@,
{
    let mut v: Vec<char> = Vec::new();
    for c in it: s.chars()
        invariant
            v@ == it.seq().take(it.index() as int),
    {
        v.push(c);
    }
    v
}

/// A string made of the characters `v[from..to]`.
pub fn string_of(v: &Vec<char>, from: usize, to: usize) -> (s: String)
    requires
        from <= to <= v@.len(),
    ensures
        s@ == v@.subrange(from as int, to as int),
{
    let mut s = String::new();
    let mut i = from;
    while i < to
        invariant
            from <= i <= to <= v@.len(),
            s@ == v@.subrange(from as int, i as int),
        decreases to - i,
    {
        push_char(&mut s, v[i]);
        assert(v@.subrange(from as int, i + 1) =~= v@.subrange(from as int, i as int).push(
            v@[i as int],
        ));
        i = i + 1;
    }
    s
}

/// Appends `t` to `s`.
pub fn append(s: &mut String, t: &str)
    ensures
        final(s)@ == old(s)@ + t@,
{
    s.append(t);
}

/// Whether two strings hold the same characters.
pub fn same_text(a: &str, b: &str) -> (r: bool)
    ensures
        r == (a@ == b@),
{
    let x = a.to_owned();
    let y = b.to_owned();
    x == y
}

// ---------------------------------------------------------------------
// Decimal numbers
// ---------------------------------------------------------------------

/// The character of a decimal digit.
pub open spec fn digit_char(d: nat) -> char {
    if d == 0 {
        '0'
    } else if d == 1 {
        '1'
    } else if d == 2 {
        '2'
    } else if d == 3 {
        '3'
    } else if d == 4 {
        '4'
    } else if d == 5 {
        '5'
    } else if d == 6 {
        '6'
    } else if d == 7 {
        '7'
    } else if d == 8 {
        '8'
    } else {
        '9'
    }
}

/// The decimal notation of `n`, without leading zeros.
pub open spec fn decimal(n: nat) -> Seq<char>
    decreases n,
{
    if n < 10 {
        seq![digit_char(n)]
    } else {
        decimal(n / 10).push(digit_char(n % 10))
    }
}

fn digit(d: u64) -> (c: char)
    requires
        d < 10,
    ensures
        c == digit_char(d as nat),
{
    if d == 0 {
        '0'
    } else if d == 1 {
        '1'
    } else if d == 2 {
        '2'
    } else if d == 3 {
        '3'
    } else if d == 4 {
        '4'
    } else if d == 5 {
        '5'
    } else if d == 6 {
        '6'
    } else if d == 7 {
        '7'
    } else if d == 8 {
        '8'
    } else {
        '9'
    }
}

/// Appends the decimal notation of `n` to `s`.
pub fn push_decimal(s: &mut String, n: u64)
    ensures
        final(s)@ == old(s)@ + decimal(n as nat),
    decreases n,
{
    if n < 10 {
        push_char(s, digit(n));
        assert(old(s)@.push(digit_char(n as nat)) =~= old(s)@ + decimal(n as nat));
    } else {
        push_decimal(s, n / 10);
        push_char(s, digit(n % 10));
        assert(old(s)@ + decimal((n / 10) as nat) + seq![digit_char((n % 10) as nat)] =~= old(
            s,
        )@ + decimal(n as nat));
    }
}

/// The decimal notation of `n`.
pub fn decimal_string(n: u64) -> (s: String)
    ensures
        s@ == decimal(n as nat),
{
    let mut s = String::new();
    push_decimal(&mut s, n);
    assert(Seq::<char>::empty() + decimal(n as nat) =~= decimal(n as nat));
    s
}

// ---------------------------------------------------------------------
// Prefixes and occurrences
// ---------------------------------------------------------------------

/// `s` begins with `p`.
pub open spec fn has_prefix(s: Seq<char>, p: Seq<char>) -> bool {
    p.len() <= s.len() && s.subrange(0, p.len() as int) == p
}

/// `p` occurs in `s` at position `i`.
pub open spec fn occurs_at(s: Seq<char>, p: Seq<char>, i: int) -> bool {
    0 <= i && i + p.len() <= s.len() && s.subrange(i, i + p.len()) == p
}

/// `p` occurs somewhere in `s`.
pub open spec fn occurs(s: Seq<char>, p: Seq<char>) -> bool {
    exists|i: int| occurs_at(s, p, i)
}

/// Whether `p` occurs in `s` at position `i`.
fn matches_at(s: &Vec<char>, i: usize, p: &Vec<char>) -> (r: bool)
    requires
        i <= s@.len(),
    ensures
        r == occurs_at(s@, p@, i as int),
{
    if p.len() > s.len() - i {
        return false;
    }
    let mut j: usize = 0;
    while j < p.len()
        invariant
            i + p@.len() <= s@.len() <= usize::MAX,
            j <= p@.len(),
            forall|k: int| 0 <= k < j ==> s@[i + k] == p@[k],
        decreases p@.len() - j,
    {
        if s[i + j] != p[j] {
            assert(s@.subrange(i as int, i + p@.len())[j as int] != p@[j as int]);
            return false;
        }
        j = j + 1;
    }
    assert(s@.subrange(i as int, i + p@.len()) =~= p@);
    true
}

/// Whether `s` begins with `prefix`.
pub fn starts_with(s: &str, prefix: &str) -> (r: bool)
    ensures
        r == has_prefix(s@, prefix@),
{
    let sv = chars_of(s);
    let pv = chars_of(prefix);
    let r = matches_at(&sv, 0, &pv);
    r
}

// ---------------------------------------------------------------------
// Replacement
// ---------------------------------------------------------------------

/// `s` with every occurrence of the non-empty `pat` replaced by `rep`,
/// scanning from the left and never reusing characters of an earlier match
/// (what `str::replace` does).
pub open spec fn replaced(s: Seq<char>, pat: Seq<char>, rep: Seq<char>) -> Seq<char>
    decreases s.len(),
{
    if s.len() == 0 {
        Seq::empty()
    } else if pat.len() > 0 && has_prefix(s, pat) {
        rep + replaced(s.skip(pat.len() as int), pat, rep)
    } else {
        seq![s[0]] + replaced(s.skip(1), pat, rep)
    }
}

/// Replaces every occurrence of the non-empty `pat` in `s` by `rep`.
pub fn replace_all(s: &str, pat: &str, rep: &str) -> (r: String)
    requires
        pat@.len() > 0,
    ensures
        r@ == replaced(s@, pat@, rep@),
{
    let sv = chars_of(s);
    let pv = chars_of(pat);
    let mut out = String::new();
    let mut i: usize = 0;
    assert(sv@.skip(0) =~= sv@);
    assert(out@ + replaced(sv@, pv@, rep@) =~= replaced(sv@, pv@, rep@));
    while i < sv.len()
        invariant
            i <= sv@.len(),
            sv@ == s@,
            pv@ == pat@,
            pv@.len() > 0,
            out@ + replaced(sv@.skip(i as int), pv@, rep@) == replaced(sv@, pv@, rep@),
        decreases sv@.len() - i,
    {
        let ghost rest = sv@.skip(i as int);
        if matches_at(&sv, i, &pv) {
            assert(rest.subrange(0, pv@.len() as int) =~= sv@.subrange(
                i as int,
                i + pv@.len(),
            ));
            assert(rest.skip(pv@.len() as int) =~= sv@.skip(i + pv@.len()));
            let ghost before = out@;
            append(&mut out, rep);
            assert(out@ + replaced(sv@.skip(i + pv@.len()), pv@, rep@) =~= before + (rep@
                + replaced(sv@.skip(i + pv@.len()), pv@, rep@)));
            i = i + pv.len();
        } else {
            assert(!has_prefix(rest, pv@)) by {
                if has_prefix(rest, pv@) {
                    assert(rest.subrange(0, pv@.len() as int) =~= sv@.subrange(
                        i as int,
                        i + pv@.len(),
                    ));
                }
            }
            assert(rest.skip(1) =~= sv@.skip(i + 1));
            let ghost before = out@;
            push_char(&mut out, sv[i]);
            assert(out@ + replaced(sv@.skip(i + 1), pv@, rep@) =~= before + (seq![sv@[i as int]]
                + replaced(sv@.skip(i + 1), pv@, rep@)));
            i = i + 1;
        }
    }
    assert(sv@.skip(i as int) =~= Seq::<char>::empty());
    assert(out@ + Seq::<char>::empty() =~= out@);
    out
}

/// How many times `c` occurs in `s`.
pub open spec fn count_char(s: Seq<char>, c: char) -> nat
    decreases s.len(),
{
    if s.len() == 0 {
        0
    } else {
        (if s[0] == c {
            1nat
        } else {
            0nat
        }) + count_char(s.skip(1), c)
    }
}

/// Occurrences of a character add up over a concatenation.
pub proof fn lemma_count_concat(a: Seq<char>, b: Seq<char>, c: char)
    ensures
        count_char(a + b, c) == count_char(a, c) + count_char(b, c),
    decreases a.len(),
{
    if a.len() == 0 {
        assert(a + b =~= b);
    } else {
        assert((a + b).skip(1) =~= a.skip(1) + b);
        lemma_count_concat(a.skip(1), b, c);
    }
}

/// A character that occurs nowhere has no position in the sequence.
pub proof fn lemma_count_zero(s: Seq<char>, c: char)
    requires
        count_char(s, c) == 0,
    ensures
        !s.contains(c),
    decreases s.len(),
{
    if s.len() > 0 {
        lemma_count_zero(s.skip(1), c);
        assert forall|i: int| 0 <= i < s.len() implies s[i] != c by {
            if i > 0 {
                assert(s[i] == s.skip(1)[i - 1]);
            }
        }
    }
}

proof fn lemma_split_prefix(s: Seq<char>, p: Seq<char>)
    requires
        has_prefix(s, p),
    ensures
        s == p + s.skip(p.len() as int),
{
    assert(s =~= s.subrange(0, p.len() as int) + s.skip(p.len() as int));
}

proof fn lemma_split_first(s: Seq<char>)
    requires
        s.len() > 0,
    ensures
        s == seq![s[0]] + s.skip(1),
{
    assert(s =~= seq![s[0]] + s.skip(1));
}

/// Replacing a pattern by a text, neither of which holds `c`, keeps the
/// occurrences of `c`.
pub proof fn lemma_replaced_keeps_count(s: Seq<char>, p: Seq<char>, rep: Seq<char>, c: char)
    requires
        p.len() > 0,
        count_char(p, c) == 0,
        count_char(rep, c) == 0,
    ensures
        count_char(replaced(s, p, rep), c) == count_char(s, c),
    decreases s.len(),
{
    if s.len() > 0 {
        if has_prefix(s, p) {
            lemma_split_prefix(s, p);
            lemma_count_concat(p, s.skip(p.len() as int), c);
            lemma_count_concat(rep, replaced(s.skip(p.len() as int), p, rep), c);
            lemma_replaced_keeps_count(s.skip(p.len() as int), p, rep, c);
        } else {
            lemma_split_first(s);
            lemma_count_concat(seq![s[0]], replaced(s.skip(1), p, rep), c);
            lemma_replaced_keeps_count(s.skip(1), p, rep, c);
            assert(count_char(seq![s[0]], c) == count_char(seq![s[0]].skip(1), c) + (if s[0]
                == c {
                1nat
            } else {
                0nat
            }));
            assert(seq![s[0]].skip(1) =~= Seq::<char>::empty());
        }
    }
}

/// Removing every occurrence of `p` never lengthens a text, shortens it
/// exactly when `p` occurs in it, and leaves it as it is otherwise.
pub proof fn lemma_removal_shrinks(s: Seq<char>, p: Seq<char>)
    requires
        p.len() > 0,
    ensures
        replaced(s, p, Seq::empty()).len() <= s.len(),
        occurs(s, p) ==> replaced(s, p, Seq::empty()).len() < s.len(),
        !occurs(s, p) ==> replaced(s, p, Seq::empty()) == s,
    decreases s.len(),
{
    let e = Seq::<char>::empty();
    if s.len() > 0 {
        if has_prefix(s, p) {
            lemma_removal_shrinks(s.skip(p.len() as int), p);
            assert(occurs_at(s, p, 0)) by {
                assert(s.subrange(0, 0 + p.len() as int) =~= s.subrange(0, p.len() as int));
            }
        } else {
            let t = s.skip(1);
            lemma_removal_shrinks(t, p);
            if occurs(s, p) {
                let i = choose|i: int| occurs_at(s, p, i);
                if i == 0 {
                    assert(s.subrange(0, p.len() as int) =~= s.subrange(0, 0 + p.len() as int));
                }
                assert(i >= 1);
                assert(t.subrange(i - 1, i - 1 + p.len()) =~= s.subrange(i, i + p.len()));
                assert(occurs_at(t, p, i - 1));
            } else {
                assert forall|j: int| !occurs_at(t, p, j) by {
                    if occurs_at(t, p, j) {
                        assert(t.subrange(j, j + p.len()) =~= s.subrange(j + 1, j + 1 + p.len()));
                        assert(occurs_at(s, p, j + 1));
                    }
                }
                assert(seq![s[0]] + t =~= s);
            }
        }
    } else {
        if occurs(s, p) {
            let i = choose|i: int| occurs_at(s, p, i);
            assert(false);
        }
        assert(replaced(s, p, e) =~= s);
    }
}

/// Replacing each `c` by two of them doubles the occurrences of `c`.
pub proof fn lemma_replaced_doubles_count(s: Seq<char>, c: char)
    ensures
        count_char(replaced(s, seq![c], seq![c, c]), c) == 2 * count_char(s, c),
    decreases s.len(),
{
    let p = seq![c];
    let rep = seq![c, c];
    if s.len() > 0 {
        lemma_replaced_doubles_count(s.skip(1), c);
        assert(rep.skip(1) =~= seq![c]);
        assert(seq![c].skip(1) =~= Seq::<char>::empty());
        assert(seq![s[0]].skip(1) =~= Seq::<char>::empty());
        assert(count_char(Seq::<char>::empty(), c) == 0);
        assert(count_char(seq![c], c) == 1);
        assert(count_char(rep, c) == 2);
        if has_prefix(s, p) {
            assert(s[0] == s.subrange(0, 1)[0]);
            assert(replaced(s, p, rep) == rep + replaced(s.skip(1), p, rep));
            lemma_count_concat(rep, replaced(s.skip(1), p, rep), c);
        } else {
            assert(s[0] != c) by {
                if s[0] == c {
                    assert(s.subrange(0, 1) =~= p);
                }
            }
            lemma_count_concat(seq![s[0]], replaced(s.skip(1), p, rep), c);
        }
    }
}

/// Removing every `c` leaves none.
pub proof fn lemma_replaced_removes_char(s: Seq<char>, c: char)
    ensures
        count_char(replaced(s, seq![c], Seq::empty()), c) == 0,
    decreases s.len(),
{
    let p = seq![c];
    let e = Seq::<char>::empty();
    assert(count_char(e, c) == 0);
    if s.len() > 0 {
        lemma_replaced_removes_char(s.skip(1), c);
        assert(seq![s[0]].skip(1) =~= Seq::<char>::empty());
        if has_prefix(s, p) {
            assert(e + replaced(s.skip(1), p, e) =~= replaced(s.skip(1), p, e));
            assert(replaced(s, p, e) == e + replaced(s.skip(1), p, e));
        } else {
            assert(s[0] != c) by {
                if s[0] == c {
                    assert(s.subrange(0, 1) =~= p);
                }
            }
            assert(count_char(seq![s[0]], c) == 0);
            lemma_count_concat(seq![s[0]], replaced(s.skip(1), p, e), c);
        }
    }
}

// ---------------------------------------------------------------------
// Joining
// ---------------------------------------------------------------------

/// The parts, in order, with `sep` between each two neighbours.
pub open spec fn joined(parts: Seq<Seq<char>>, sep: Seq<char>) -> Seq<char>
    decreases parts.len(),
{
    if parts.len() == 0 {
        Seq::empty()
    } else if parts.len() == 1 {
        parts[0]
    } else {
        joined(parts.drop_last(), sep) + sep + parts.last()
    }
}

/// The characters of each string.
pub open spec fn texts(v: Seq<String>) -> Seq<Seq<char>> {
    v.map_values(|s: String| s@)
}

/// Appends the strings of `parts` to `s`, with `sep` between neighbours.
pub fn push_joined(s: &mut String, parts: &Vec<String>, sep: &str)
    ensures
        final(s)@ == old(s)@ + joined(texts(parts@), sep@),
{
    let ghost start = s@;
    let ghost all = texts(parts@);
    let mut i: usize = 0;
    while i < parts.len()
        invariant
            i <= parts@.len(),
            all == texts(parts@),
            s@ == start + joined(all.take(i as int), sep@),
        decreases parts@.len() - i,
    {
        assert(all.take(i + 1).drop_last() =~= all.take(i as int));
        assert(all.take(i + 1).last() == parts@[i as int]@);
        if i > 0 {
            append(s, sep);
        }
        append(s, parts[i].as_str());
        proof {
            if i == 0 {
                assert(joined(all.take(0), sep@) =~= Seq::<char>::empty());
                assert(all.take(1).len() == 1);
            }
        }
        assert(s@ =~= start + joined(all.take(i + 1), sep@));
        i = i + 1;
    }
    assert(all.take(parts@.len() as int) =~= all);
}

// ---------------------------------------------------------------------
// Trimming
// ---------------------------------------------------------------------

/// Number of white-space characters at the start of `s`.
pub open spec fn leading_white(s: Seq<char>) -> nat
    decreases s.len(),
{
    if s.len() > 0 && white_space(s[0]) {
        1 + leading_white(s.skip(1))
    } else {
        0
    }
}

/// Number of white-space characters at the end of `s`.
pub open spec fn trailing_white(s: Seq<char>) -> nat
    decreases s.len(),
{
    if s.len() > 0 && white_space(s.last()) {
        1 + trailing_white(s.drop_last())
    } else {
        0
    }
}

/// `s` without its leading and trailing white space (what `str::trim` gives).
pub open spec fn trimmed(s: Seq<char>) -> Seq<char> {
    let t = s.skip(leading_white(s) as int);
    t.take(t.len() - trailing_white(t))
}

proof fn lemma_leading_white(s: Seq<char>, i: int)
    requires
        0 <= i <= s.len(),
        forall|k: int| 0 <= k < i ==> white_space(s[k]),
        i == s.len() || !white_space(s[i]),
    ensures
        leading_white(s) == i,
    decreases i,
{
    if i > 0 {
        lemma_leading_white(s.skip(1), i - 1);
    }
}

proof fn lemma_trailing_white(s: Seq<char>, j: int)
    requires
        0 <= j <= s.len(),
        forall|k: int| j <= k < s.len() ==> white_space(s[k]),
        j == 0 || !white_space(s[j - 1]),
    ensures
        trailing_white(s) == s.len() - j,
    decreases s.len() - j,
{
    if j < s.len() {
        lemma_trailing_white(s.drop_last(), j);
    }
}

proof fn lemma_leading_facts(s: Seq<char>)
    ensures
        leading_white(s) <= s.len(),
        leading_white(s) < s.len() ==> !white_space(s[leading_white(s) as int]),
    decreases s.len(),
{
    if s.len() > 0 && white_space(s[0]) {
        lemma_leading_facts(s.skip(1));
    }
}

proof fn lemma_trailing_facts(s: Seq<char>)
    ensures
        trailing_white(s) <= s.len(),
        trailing_white(s) < s.len() ==> !white_space(s[s.len() - 1 - trailing_white(s)]),
    decreases s.len(),
{
    if s.len() > 0 && white_space(s.last()) {
        lemma_trailing_facts(s.drop_last());
    }
}

/// Trimming a trimmed text changes nothing.
pub proof fn trim_is_idempotent(s: Seq<char>)
    ensures
        trimmed(trimmed(s)) == trimmed(s),
{
    let l = leading_white(s);
    lemma_leading_facts(s);
    let t = s.skip(l as int);
    lemma_trailing_facts(t);
    let r = trimmed(s);
    if r.len() > 0 {
        assert(r[0] == s[l as int]);
        assert(r[r.len() - 1] == t[t.len() - 1 - trailing_white(t)]);
        assert(leading_white(r) == 0);
        assert(trailing_white(r) == 0);
        assert(r.skip(0) =~= r);
        assert(r.take(r.len() as int) =~= r);
    } else {
        assert(trimmed(r) =~= r);
    }
}

/// `s` without leading and trailing white space.
pub fn trim_text(s: &str) -> (r: String)
    ensures
        r@ == trimmed(s@),
{
    let v = chars_of(s);
    let mut i: usize = 0;
    while i < v.len() && is_white_space(v[i])
        invariant
            i <= v@.len(),
            forall|k: int| 0 <= k < i ==> white_space(v@[k]),
        decreases v@.len() - i,
    {
        i = i + 1;
    }
    let mut j: usize = v.len();
    while j > i && is_white_space(v[j - 1])
        invariant
            i <= j <= v@.len(),
            forall|k: int| j <= k < v@.len() ==> white_space(v@[k]),
        decreases j - i,
    {
        j = j - 1;
    }
    proof {
        lemma_leading_white(v@, i as int);
        let t = v@.skip(i as int);
        lemma_trailing_white(t, j - i);
        assert(t.take(j - i) =~= v@.subrange(i as int, j as int));
    }
    string_of(&v, i, j)
}

} // verus!
