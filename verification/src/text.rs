//! Character-level text helpers: whitespace trimming, substring search,
//! decimal parsing and decimal formatting, each with its specification.
use vstd::prelude::*;

verus! {

/// Appends one character to a `String` (std's `String::push`).
#[verifier::external_body]
pub(crate) fn push_char(s: &mut String, c: char)
    ensures
        final(s)@ == old(s)@.push(c),
{
    s.push(c);
}

/// The characters of `s`, in order.
pub fn chars_of(s: &str) -> (v: Vec<char>)
    ensures
        v@ == s@,
{
    let mut v: Vec<char> = Vec::new();
    for c in it: s.chars()
        invariant
            v@ == it.seq().take(it.index() as int),
            it.seq() == s@,
    {
        v.push(c);
    }
    v
}

/// A `String` holding `cs[lo..hi]`.
pub fn string_from_chars(cs: &Vec<char>, lo: usize, hi: usize) -> (s: String)
    requires
        lo <= hi <= cs@.len(),
    ensures
        s@ == cs@.subrange(lo as int, hi as int),
{
    let mut s = String::new();
    let mut i = lo;
    while i < hi
        invariant
            lo <= i <= hi <= cs@.len(),
            s@ == cs@.subrange(lo as int, i as int),
        decreases hi - i,
    {
        push_char(&mut s, cs[i]);
        i = i + 1;
        assert(s@ =~= cs@.subrange(lo as int, i as int));
    }
    s
}

/// `a` followed by `b`, as a new `String`.
pub fn concat(a: &str, b: &str) -> (s: String)
    ensures
        s@ == a@ + b@,
{
    let mut s = a.to_owned();
    s.append(b);
    s
}

// ── Whitespace ───────────────────────────────────────

/// The Unicode `White_Space` property, which `char::is_whitespace` tests.
pub open spec fn is_white_space(c: char) -> bool {
    let u = c as u32;
    ||| u == 0x20
    ||| 0x09 <= u <= 0x0d
    ||| u == 0x85
    ||| u == 0xa0
    ||| u == 0x1680
    ||| 0x2000 <= u <= 0x200a
    ||| u == 0x2028
    ||| u == 0x2029
    ||| u == 0x202f
    ||| u == 0x205f
    ||| u == 0x3000
}

pub fn white_space(c: char) -> (b: bool)
    ensures
        b == is_white_space(c),
{
    let u = c as u32;
    u == 0x20 || (0x09 <= u && u <= 0x0d) || u == 0x85 || u == 0xa0 || u == 0x1680 || (0x2000 <= u
        && u <= 0x200a) || u == 0x2028 || u == 0x2029 || u == 0x202f || u == 0x205f || u == 0x3000
}

/// `s` without its leading whitespace.
pub open spec fn trim_start(s: Seq<char>) -> Seq<char>
    decreases s.len(),
{
    if s.len() > 0 && is_white_space(s[0]) {
        trim_start(s.drop_first())
    } else {
        s
    }
}

/// `s` without its trailing whitespace.
pub open spec fn trim_end(s: Seq<char>) -> Seq<char>
    decreases s.len(),
{
    if s.len() > 0 && is_white_space(s.last()) {
        trim_end(s.drop_last())
    } else {
        s
    }
}

/// `s` without leading and trailing whitespace, as `str::trim` gives it.
pub open spec fn trimmed(s: Seq<char>) -> Seq<char> {
    trim_end(trim_start(s))
}

/// `cs[lo..hi]` with leading and trailing whitespace removed.
pub fn trim_range(cs: &Vec<char>, lo: usize, hi: usize) -> (s: String)
    requires
        lo <= hi <= cs@.len(),
    ensures
        s@ == trimmed(cs@.subrange(lo as int, hi as int)),
{
    let ghost whole = cs@.subrange(lo as int, hi as int);
    let mut i = lo;
    while i < hi && white_space(cs[i])
        invariant
            lo <= i <= hi <= cs@.len(),
            whole == cs@.subrange(lo as int, hi as int),
            trim_start(whole) == trim_start(cs@.subrange(i as int, hi as int)),
        decreases hi - i,
    {
        assert(cs@.subrange(i as int, hi as int).drop_first() =~= cs@.subrange(
            i + 1,
            hi as int,
        ));
        i = i + 1;
    }
    assert(trim_start(whole) == cs@.subrange(i as int, hi as int));
    let mut j = hi;
    while j > i && white_space(cs[j - 1])
        invariant
            lo <= i <= j <= hi <= cs@.len(),
            trim_start(whole) == cs@.subrange(i as int, hi as int),
            trimmed(whole) == trim_end(cs@.subrange(i as int, j as int)),
        decreases j - i,
    {
        assert(cs@.subrange(i as int, j as int).drop_last() =~= cs@.subrange(
            i as int,
            j - 1,
        ));
        j = j - 1;
    }
    string_from_chars(cs, i, j)
}

/// `s` with leading and trailing whitespace removed (`str::trim`).
pub fn trim(s: &str) -> (t: String)
    ensures
        t@ == trimmed(s@),
{
    let cs = chars_of(s);
    let t = trim_range(&cs, 0, cs.len());
    assert(cs@.subrange(0, cs@.len() as int) =~= s@);
    t
}

// ── Substring search ─────────────────────────────────

/// The first position at or after `i` where `n` occurs in `h`
/// (the character index that `str::find` locates).
pub open spec fn find_from(h: Seq<char>, n: Seq<char>, i: nat) -> Option<nat>
    decreases h.len() - i,
{
    if n.len() == 0 {
        if i <= h.len() {
            Some(i)
        } else {
            None
        }
    } else if i + n.len() > h.len() {
        None
    } else if h.subrange(i as int, (i + n.len()) as int) == n {
        Some(i)
    } else {
        find_from(h, n, i + 1)
    }
}

/// The first position where `n` occurs in `h`.
pub open spec fn find_first(h: Seq<char>, n: Seq<char>) -> Option<nat> {
    find_from(h, n, 0)
}

proof fn lemma_find_from_in_bounds(h: Seq<char>, n: Seq<char>, i: nat)
    ensures
        find_from(h, n, i) matches Some(p) ==> i <= p && p + n.len() <= h.len(),
    decreases h.len() - i,
{
    if n.len() > 0 && i + n.len() <= h.len() && h.subrange(i as int, (i + n.len()) as int) != n {
        lemma_find_from_in_bounds(h, n, i + 1);
    }
}

/// A found occurrence lies within the text.
pub proof fn lemma_find_in_bounds(h: Seq<char>, n: Seq<char>)
    ensures
        find_first(h, n) matches Some(p) ==> p + n.len() <= h.len(),
{
    lemma_find_from_in_bounds(h, n, 0);
}

/// Whether `n` occurs in `h` at some position.
pub open spec fn occurs_in(h: Seq<char>, n: Seq<char>) -> bool {
    exists|i: int| 0 <= i && i + n.len() <= h.len() && #[trigger] h.subrange(i, i + n.len()) == n
}

fn matches_at(h: &Vec<char>, n: &Vec<char>, i: usize) -> (b: bool)
    requires
        i + n@.len() <= h@.len(),
    ensures
        b == (h@.subrange(i as int, i + n@.len()) == n@),
{
    let hl = h.len();
    let mut k: usize = 0;
    while k < n.len()
        invariant
            hl == h@.len(),
            i + n@.len() <= h@.len(),
            k <= n@.len(),
            forall|m: int| 0 <= m < k ==> h@[i + m] == n@[m],
        decreases n@.len() - k,
    {
        if h[i + k] != n[k] {
            assert(h@.subrange(i as int, i + n@.len())[k as int] != n@[k as int]);
            return false;
        }
        k = k + 1;
    }
    assert(h@.subrange(i as int, i + n@.len()) =~= n@);
    true
}

/// Position of the first occurrence of `n` in `h`.
pub fn find(h: &Vec<char>, n: &Vec<char>) -> (r: Option<usize>)
    ensures
        match r {
            Some(p) => find_first(h@, n@) == Some(p as nat),
            None => find_first(h@, n@) is None,
        },
{
    if n.len() == 0 {
        return Some(0);
    }
    if n.len() > h.len() {
        return None;
    }
    let last = h.len() - n.len();
    let mut i: usize = 0;
    while i <= last
        invariant
            n@.len() > 0,
            last + n@.len() == h@.len(),
            last < usize::MAX,
            find_first(h@, n@) == find_from(h@, n@, i as nat),
        decreases last + 1 - i,
    {
        if matches_at(h, n, i) {
            return Some(i);
        }
        i = i + 1;
    }
    None
}

// ── Decimal numbers ──────────────────────────────────

pub open spec fn is_digit(c: char) -> bool {
    48 <= (c as u32) <= 57
}

pub open spec fn digit_value(c: char) -> nat {
    ((c as u32) - 48) as nat
}

pub open spec fn all_digits(s: Seq<char>) -> bool {
    forall|i: int| 0 <= i < s.len() ==> is_digit(#[trigger] s[i])
}

/// The number that a string of decimal digits denotes.
pub open spec fn digits_value(s: Seq<char>) -> nat
    decreases s.len(),
{
    if s.len() == 0 {
        0
    } else {
        digits_value(s.drop_last()) * 10 + digit_value(s.last())
    }
}

/// The digits of an unsigned number as `from_str` reads them: one leading `+` is allowed.
pub open spec fn unsigned_digits(s: Seq<char>) -> Seq<char> {
    if s.len() > 0 && s[0] == '+' {
        s.drop_first()
    } else {
        s
    }
}

/// What `from_str` gives for an unsigned integer type whose largest value is `limit`.
pub open spec fn parse_unsigned_spec(s: Seq<char>, limit: nat) -> Option<nat> {
    let d = unsigned_digits(s);
    if d.len() > 0 && all_digits(d) && digits_value(d) <= limit {
        Some(digits_value(d))
    } else {
        None
    }
}

proof fn lemma_digits_value_monotone(s: Seq<char>, k: int)
    requires
        0 <= k <= s.len(),
    ensures
        digits_value(s.take(k)) <= digits_value(s),
    decreases s.len() - k,
{
    if k < s.len() {
        lemma_digits_value_monotone(s, k + 1);
        assert(s.take(k + 1).drop_last() =~= s.take(k));
    } else {
        assert(s.take(k) =~= s);
    }
}

/// Reads `cs[lo..hi]` as an unsigned decimal number no larger than `limit`.
pub fn parse_unsigned(cs: &Vec<char>, lo: usize, hi: usize, limit: u64) -> (r: Option<u64>)
    requires
        lo <= hi <= cs@.len(),
    ensures
        match parse_unsigned_spec(cs@.subrange(lo as int, hi as int), limit as nat) {
            Some(v) => r == Some(v as u64),
            None => r is None,
        },
{
    let ghost s = cs@.subrange(lo as int, hi as int);
    let mut start = lo;
    if lo < hi && cs[lo] == '+' {
        start = lo + 1;
        assert(s.drop_first() =~= cs@.subrange(start as int, hi as int));
    } else {
        assert(s =~= cs@.subrange(start as int, hi as int));
    }
    let ghost d = cs@.subrange(start as int, hi as int);
    assert(d == unsigned_digits(s));
    if start == hi {
        return None;
    }
    let mut acc: u128 = 0;
    let mut i = start;
    while i < hi
        invariant
            lo <= start <= i <= hi <= cs@.len(),
            start < hi,
            d == cs@.subrange(start as int, hi as int),
            s == cs@.subrange(lo as int, hi as int),
            d == unsigned_digits(s),
            acc == digits_value(d.take(i - start)),
            acc <= limit,
            all_digits(d.take(i - start)),
        decreases hi - i,
    {
        let c = cs[i];
        let u = c as u32;
        if !(48 <= u && u <= 57) {
            assert(!is_digit(d[i - start]));
            return None;
        }
        let dv = (u - 48) as u128;
        assert(d.take(i - start + 1).drop_last() =~= d.take(i - start));
        assert(d.take(i - start + 1).last() == c);
        acc = acc * 10 + dv;
        i = i + 1;
        assert(all_digits(d.take(i - start)));
        if acc > limit as u128 {
            proof {
                lemma_digits_value_monotone(d, i - start);
            }
            return None;
        }
    }
    assert(d.take(i - start) =~= d);
    Some(acc as u64)
}

/// The character of decimal digit `d`.
pub open spec fn digit_char(d: nat) -> char {
    (d + 48) as char
}

/// The decimal digits of `n`, as `to_string` writes an unsigned number.
pub open spec fn decimal(n: nat) -> Seq<char>
    decreases n,
{
    if n < 10 {
        seq![digit_char(n)]
    } else {
        decimal(n / 10).push(digit_char(n % 10))
    }
}

fn digit_to_char(d: u64) -> (c: char)
    requires
        d < 10,
    ensures
        c == digit_char(d as nat),
        is_digit(c),
        digit_value(c) == d,
{
    let c = ((d as u8) + 48u8) as char;
    c
}

/// `n` written in decimal.
pub fn decimal_string(n: u64) -> (s: String)
    ensures
        s@ == decimal(n as nat),
    decreases n,
{
    if n < 10 {
        let mut s = String::new();
        push_char(&mut s, digit_to_char(n));
        assert(s@ =~= decimal(n as nat));
        s
    } else {
        let mut s = decimal_string(n / 10);
        push_char(&mut s, digit_to_char(n % 10));
        s
    }
}

/// Decimal text reads back as the number it was written from.
pub proof fn lemma_decimal_reads_back(n: nat)
    ensures
        all_digits(decimal(n)),
        digits_value(decimal(n)) == n,
        decimal(n).len() > 0,
        decimal(n)[0] != '+',
    decreases n,
{
    assert(digit_value(digit_char(n % 10)) == n % 10);
    if n < 10 {
        assert(decimal(n).drop_last() =~= Seq::<char>::empty());
        assert(decimal(n).last() == digit_char(n));
        assert(digits_value(decimal(n)) == digits_value(Seq::<char>::empty()) * 10 + digit_value(digit_char(n)));
    } else {
        lemma_decimal_reads_back(n / 10);
        assert(n == (n / 10) * 10 + n % 10) by (nonlinear_arith);
        assert(decimal(n).drop_last() =~= decimal(n / 10));
        assert(digits_value(decimal(n)) == digits_value(decimal(n / 10)) * 10 + n % 10);
        assert forall|i: int| 0 <= i < decimal(n).len() implies is_digit(#[trigger] decimal(n)[i]) by {
            if i < decimal(n / 10).len() {
                assert(decimal(n)[i] == decimal(n / 10)[i]);
            }
        }
    }
}

/// Six zero-padded decimal digits of `n`, as `format!("{:06}", n)` writes a number below a million.
pub open spec fn six_digits(n: nat) -> Seq<char> {
    seq![
        digit_char(n / 100000 % 10),
        digit_char(n / 10000 % 10),
        digit_char(n / 1000 % 10),
        digit_char(n / 100 % 10),
        digit_char(n / 10 % 10),
        digit_char(n % 10),
    ]
}

pub fn six_digit_string(n: u64) -> (s: String)
    requires
        n < 1000000,
    ensures
        s@ == six_digits(n as nat),
{
    let mut s = String::new();
    push_char(&mut s, digit_to_char(n / 100000 % 10));
    push_char(&mut s, digit_to_char(n / 10000 % 10));
    push_char(&mut s, digit_to_char(n / 1000 % 10));
    push_char(&mut s, digit_to_char(n / 100 % 10));
    push_char(&mut s, digit_to_char(n / 10 % 10));
    push_char(&mut s, digit_to_char(n % 10));
    assert(s@ =~= six_digits(n as nat));
    s
}

} // verus!
