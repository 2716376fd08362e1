//! Searching in text, and whole numbers in decimal notation.

use vstd::prelude::*;

verus! {

// ── Pieces and places ──

/// The characters `chars[from..to]`.
pub fn slice(chars: &Vec<char>, from: usize, to: usize) -> (out: Vec<char>)
    requires
        from <= to <= chars.len(),
    ensures
        out@ == chars@.subrange(from as int, to as int),
{
    let mut out: Vec<char> = Vec::new();
    let mut i: usize = from;
    while i < to
        invariant
            from <= i <= to <= chars.len(),
            out@ == chars@.subrange(from as int, i as int),
        decreases to - i,
    {
        out.push(chars[i]);
        assert(chars@.subrange(from as int, i + 1) =~= chars@.subrange(from as int, i as int).push(
            chars@[i as int],
        ));
        i += 1;
    }
    out
}

/// `c` stands in `s` at position `at`, and nowhere before.
pub open spec fn first_at(s: Seq<char>, c: char, at: int) -> bool {
    &&& 0 <= at < s.len()
    &&& s[at] == c
    &&& forall|k: int| 0 <= k < at ==> s[k] != c
}

/// The first position of `c` in `s`, if it occurs.
pub open spec fn first_index(s: Seq<char>, c: char) -> Option<int> {
    if exists|at: int| first_at(s, c, at) {
        Some(choose|at: int| first_at(s, c, at))
    } else {
        None
    }
}

/// The first position of `c` in `s`, if it occurs.
pub fn find_char(s: &Vec<char>, c: char) -> (found: Option<usize>)
    ensures
        match found {
            Some(at) => first_index(s@, c) == Some(at as int) && first_at(s@, c, at as int),
            None => first_index(s@, c) is None && !s@.contains(c),
        },
{
    let mut i: usize = 0;
    while i < s.len()
        invariant
            i <= s.len(),
            forall|k: int| 0 <= k < i ==> s@[k] != c,
        decreases s.len() - i,
    {
        if s[i] == c {
            proof {
                assert(first_at(s@, c, i as int));
                let other = choose|at: int| first_at(s@, c, at);
                assert(first_at(s@, c, other));
                assert(other == i);
            }
            return Some(i);
        }
        i += 1;
    }
    proof {
        assert forall|at: int| !first_at(s@, c, at) by {}
    }
    None
}

/// `pattern` stands in `s` at position `at`.
pub open spec fn occurs_at(s: Seq<char>, pattern: Seq<char>, at: int) -> bool {
    0 <= at && at + pattern.len() <= s.len() && s.subrange(at, at + pattern.len()) == pattern
}

/// `pattern` stands somewhere in `s`.
pub open spec fn occurs(s: Seq<char>, pattern: Seq<char>) -> bool {
    exists|at: int| occurs_at(s, pattern, at)
}

/// `pattern` stands in `s` at position `at`, and nowhere further on.
pub open spec fn last_at(s: Seq<char>, pattern: Seq<char>, at: int) -> bool {
    occurs_at(s, pattern, at) && forall|later: int| later > at ==> !occurs_at(s, pattern, later)
}

/// The last position at which `pattern` stands in `s`, if it stands anywhere.
pub open spec fn last_index(s: Seq<char>, pattern: Seq<char>) -> Option<int> {
    if exists|at: int| last_at(s, pattern, at) {
        Some(choose|at: int| last_at(s, pattern, at))
    } else {
        None
    }
}

/// Whether `pattern` stands in `s` at position `at`.
pub fn matches_at(s: &Vec<char>, pattern: &Vec<char>, at: usize) -> (b: bool)
    requires
        at + pattern.len() <= s.len(),
    ensures
        b == occurs_at(s@, pattern@, at as int),
{
    let mut i: usize = 0;
    while i < pattern.len()
        invariant
            i <= pattern.len(),
            at + pattern.len() <= s.len(),
            s@.subrange(at as int, at + i) == pattern@.subrange(0, i as int),
        decreases pattern.len() - i,
    {
        if s[at + i] != pattern[i] {
            proof {
                assert(s@.subrange(at as int, at + pattern.len())[i as int] == s@[at + i]);
            }
            return false;
        }
        assert(s@.subrange(at as int, at + i + 1) =~= s@.subrange(at as int, at + i).push(
            s@[at + i],
        ));
        assert(pattern@.subrange(0, i + 1) =~= pattern@.subrange(0, i as int).push(
            pattern@[i as int],
        ));
        i += 1;
    }
    assert(pattern@.subrange(0, i as int) =~= pattern@);
    true
}

/// The last position at which `pattern` stands in `s`, if it stands anywhere.
pub fn rfind(s: &Vec<char>, pattern: &Vec<char>) -> (found: Option<usize>)
    ensures
        match found {
            Some(at) => last_index(s@, pattern@) == Some(at as int) && last_at(
                s@,
                pattern@,
                at as int,
            ),
            None => last_index(s@, pattern@) is None && !occurs(s@, pattern@),
        },
{
    if pattern.len() > s.len() {
        return None;
    }
    let mut at: usize = s.len() - pattern.len();
    loop
        invariant
            pattern.len() <= s.len(),
            at <= s.len() - pattern.len(),
            forall|later: int| later > at ==> !occurs_at(s@, pattern@, later),
        decreases at,
    {
        if matches_at(s, pattern, at) {
            proof {
                assert(last_at(s@, pattern@, at as int));
                let other = choose|k: int| last_at(s@, pattern@, k);
                assert(last_at(s@, pattern@, other));
                assert(other == at);
            }
            return Some(at);
        }
        if at == 0 {
            return None;
        }
        at -= 1;
    }
}

// ── Whole numbers ──

/// Whether the character is one of `0` to `9`.
pub open spec fn is_digit(c: char) -> bool {
    '0' <= c <= '9'
}

/// The value of a digit.
pub open spec fn digit_value(c: char) -> int {
    c as int - '0' as int
}

/// Every character is a digit.
pub open spec fn all_digits(s: Seq<char>) -> bool {
    forall|i: int| 0 <= i < s.len() ==> is_digit(#[trigger] s[i])
}

/// The number that a run of digits writes in decimal notation.
pub open spec fn digits_value(s: Seq<char>) -> int
    decreases s.len(),
{
    if s.len() == 0 {
        0
    } else {
        digits_value(s.drop_last()) * 10 + digit_value(s.last())
    }
}

/// The digits of a text that may start with a sign.
pub open spec fn unsigned_part(s: Seq<char>) -> Seq<char> {
    if s.len() > 0 && (s[0] == '-' || s[0] == '+') {
        s.skip(1)
    } else {
        s
    }
}

/// The 64-bit whole number that a text writes: an optional `+` or `-`, then
/// one or more digits and nothing else, with a value that fits. Any other text
/// writes none.
pub open spec fn parse_i64_spec(s: Seq<char>) -> Option<int> {
    let digits = unsigned_part(s);
    let value = if s.len() > 0 && s[0] == '-' {
        -digits_value(digits)
    } else {
        digits_value(digits)
    };
    if digits.len() > 0 && all_digits(digits) && i64::MIN <= value <= i64::MAX {
        Some(value)
    } else {
        None
    }
}

/// A run of digits writes no less than any of its beginnings.
pub proof fn lemma_digits_value_grows(s: Seq<char>, k: int)
    requires
        all_digits(s),
        0 <= k <= s.len(),
    ensures
        0 <= digits_value(s.take(k)) <= digits_value(s),
    decreases s.len() - k,
{
    if k == s.len() {
        assert(s.take(k) =~= s);
        lemma_digits_value_nonneg(s);
    } else {
        lemma_digits_value_grows(s, k + 1);
        assert(s.take(k + 1).drop_last() =~= s.take(k));
        assert(is_digit(s[k]));
        lemma_digits_value_nonneg(s.take(k));
    }
}

/// A run of digits writes no negative number.
pub proof fn lemma_digits_value_nonneg(s: Seq<char>)
    requires
        all_digits(s),
    ensures
        0 <= digits_value(s),
    decreases s.len(),
{
    if s.len() > 0 {
        assert(is_digit(s.last()));
        lemma_digits_value_nonneg(s.drop_last());
    }
}

/// The 64-bit whole number that the text writes, if it writes one.
pub fn parse_i64(s: &Vec<char>) -> (parsed: Option<i64>)
    ensures
        match parsed {
            Some(v) => parse_i64_spec(s@) == Some(v as int),
            None => parse_i64_spec(s@) is None,
        },
{
    let negative = s.len() > 0 && s[0] == '-';
    let start: usize = if s.len() > 0 && (s[0] == '-' || s[0] == '+') {
        1
    } else {
        0
    };
    let ghost digits = unsigned_part(s@);
    proof {
        assert(digits =~= s@.skip(start as int));
    }
    if start == s.len() {
        return None;
    }
    let limit: u64 = 9_223_372_036_854_775_808;
    let mut acc: u64 = 0;
    let mut i: usize = start;
    proof {
        assert(digits.take(0) =~= Seq::<char>::empty());
    }
    while i < s.len()
        invariant
            start <= i <= s.len(),
            digits == s@.skip(start as int),
            digits == unsigned_part(s@),
            negative == (s@.len() > 0 && s@[0] == '-'),
            limit == 9_223_372_036_854_775_808,
            all_digits(digits.take(i - start)),
            acc == digits_value(digits.take(i - start)),
            acc <= limit,
        decreases s.len() - i,
    {
        let c = s[i];
        proof {
            assert(digits[i - start] == c);
            assert(digits.take(i - start + 1).drop_last() =~= digits.take(i - start));
            assert(digits.take(i - start + 1).last() == c);
        }
        if !('0' <= c && c <= '9') {
            proof {
                assert(!is_digit(digits[i - start]));
            }
            return None;
        }
        let d: u64 = (c as u64) - ('0' as u64);
        proof {
            assert forall|k: int| 0 <= k < digits.take(i - start + 1).len() implies is_digit(
                #[trigger] digits.take(i - start + 1)[k],
            ) by {
                if k < i - start {
                    assert(digits.take(i - start + 1)[k] == digits.take(i - start)[k]);
                }
            }
        }
        if acc > (limit - d) / 10 {
            proof {
                let sofar = digits.take(i - start + 1);
                assert(digits_value(sofar) == acc * 10 + d);
                assert(acc * 10 + d > limit) by (nonlinear_arith)
                    requires
                        acc > (limit - d) / 10,
                        acc >= 0,
                        0 <= d <= 9,
                        limit == 9_223_372_036_854_775_808,
                ;
                if all_digits(digits) {
                    lemma_digits_value_grows(digits, i - start + 1);
                }
            }
            return None;
        }
        assert(acc * 10 + d <= limit) by (nonlinear_arith)
            requires
                acc <= (limit - d) / 10,
                0 <= d <= 9,
                limit == 9_223_372_036_854_775_808,
        ;
        acc = acc * 10 + d;
        i += 1;
    }
    proof {
        assert(digits.take(i - start) =~= digits);
    }
    if negative {
        if acc == limit {
            Some(i64::MIN)
        } else {
            Some(-(acc as i64))
        }
    } else {
        if acc == limit {
            None
        } else {
            Some(acc as i64)
        }
    }
}

/// The character that writes a value below 10.
pub open spec fn digit_char(d: int) -> char {
    ('0' as int + d) as char
}

/// The digits that write a natural number in decimal notation.
pub open spec fn digits_of(n: nat) -> Seq<char>
    decreases n,
{
    if n < 10 {
        seq![digit_char(n as int)]
    } else {
        digits_of(n / 10).push(digit_char((n % 10) as int))
    }
}

/// A whole number in decimal notation, with `-` before a negative one.
pub open spec fn decimal_spec(n: int) -> Seq<char> {
    if n < 0 {
        seq!['-'] + digits_of((-n) as nat)
    } else {
        digits_of(n as nat)
    }
}

/// The digits of a natural number, in decimal notation.
pub fn digits(n: u64) -> (out: Vec<char>)
    ensures
        out@ == digits_of(n as nat),
{
    let mut low: Vec<char> = Vec::new();
    let mut rest: u64 = n;
    while rest >= 10
        invariant
            digits_of(n as nat) == digits_of(rest as nat) + low@.reverse(),
        decreases rest,
    {
        let d: u8 = (rest % 10) as u8;
        let c: char = (48u8 + d) as char;
        let ghost before = low@;
        low.push(c);
        proof {
            assert(c == digit_char((rest % 10) as int));
            assert(low@.reverse() =~= seq![c] + before.reverse());
            assert(digits_of(rest as nat) + before.reverse() =~= digits_of((rest / 10) as nat)
                + low@.reverse());
        }
        rest = rest / 10;
    }
    let d: u8 = rest as u8;
    let mut out: Vec<char> = Vec::new();
    out.push((48u8 + d) as char);
    let mut k: usize = low.len();
    while k > 0
        invariant
            k <= low.len(),
            out@ == digits_of(rest as nat) + low@.reverse().take(low.len() - k),
            rest < 10,
        decreases k,
    {
        k -= 1;
        let ghost before = out@;
        out.push(low[k]);
        proof {
            let turned = low@.reverse();
            assert(turned[low.len() - 1 - k] == low@[k as int]);
            assert(turned.take(low.len() - k) =~= turned.take(low.len() - k - 1).push(low@[k as int]));
            assert(out@ =~= digits_of(rest as nat) + turned.take(low.len() - k));
        }
    }
    proof {
        assert(low@.reverse().take(low.len() as int) =~= low@.reverse());
    }
    out
}

/// The magnitude of a 64-bit whole number.
pub fn magnitude(n: i64) -> (m: u64)
    ensures
        m == if n < 0 {
            -(n as int)
        } else {
            n as int
        },
{
    if n == i64::MIN {
        9_223_372_036_854_775_808
    } else if n < 0 {
        (-n) as u64
    } else {
        n as u64
    }
}

/// A whole number in decimal notation.
pub fn decimal(n: i64) -> (out: Vec<char>)
    ensures
        out@ == decimal_spec(n as int),
{
    let body = digits(magnitude(n));
    if n < 0 {
        let mut out: Vec<char> = Vec::new();
        out.push('-');
        let mut i: usize = 0;
        while i < body.len()
            invariant
                i <= body.len(),
                out@ == seq!['-'] + body@.take(i as int),
            decreases body.len() - i,
        {
            out.push(body[i]);
            assert(body@.take(i + 1) =~= body@.take(i as int).push(body@[i as int]));
            i += 1;
        }
        assert(body@.take(i as int) =~= body@);
        out
    } else {
        body
    }
}

} // verus!
