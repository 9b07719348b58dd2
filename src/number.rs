//! Decimal text for integers: the rules by which the standard library
//! parses (`FromStr`) and prints (`Display`) integer values.
use vstd::prelude::*;

verus! {

/// Why a text is not an integer of the requested range.
#[derive(Debug, Clone, Copy, PartialEq, Eq)]
pub enum IntError {
    /// The text is empty.
    Empty,
    /// The text holds a character that is not a decimal digit where one is needed.
    InvalidDigit,
    /// The value is above the largest value of the range.
    PosOverflow,
    /// The value is below the smallest value of the range.
    NegOverflow,
}

pub open spec fn is_digit(c: char) -> bool {
    '0' <= c && c <= '9'
}

pub open spec fn digit_value(c: char) -> int {
    c as int - '0' as int
}

pub open spec fn digit_char(d: int) -> char
    recommends
        0 <= d < 10,
{
    if d == 0 {
        '0'
    } else if d == 1 {
        '1'
    } else if d == 2 {
        '2'
    } else if d == 3 {
        '3'
    } else if d == 4 {
        '4'
    } else if d == 5 {
        '5'
    } else if d == 6 {
        '6'
    } else if d == 7 {
        '7'
    } else if d == 8 {
        '8'
    } else {
        '9'
    }
}

/// Reads the digits of `s` from left to right, starting from the value `acc`;
/// a negative number accumulates downwards. The first character that is not
/// a digit, or the first step that leaves `lo..=hi`, decides the error.
pub open spec fn scan_digits(acc: int, s: Seq<char>, neg: bool, lo: int, hi: int) -> Result<
    int,
    IntError,
>
    decreases s.len(),
{
    if s.len() == 0 {
        Ok(acc)
    } else if !is_digit(s[0]) {
        Err(IntError::InvalidDigit)
    } else {
        let next = if neg {
            acc * 10 - digit_value(s[0])
        } else {
            acc * 10 + digit_value(s[0])
        };
        if next > hi {
            Err(IntError::PosOverflow)
        } else if next < lo {
            Err(IntError::NegOverflow)
        } else {
            scan_digits(next, s.drop_first(), neg, lo, hi)
        }
    }
}

/// The integer that `s` denotes in the range `lo..=hi`: an optional `+`
/// (or `-`, where the range has negative values) and one or more decimal digits.
pub open spec fn parse_int_spec(s: Seq<char>, lo: int, hi: int) -> Result<int, IntError> {
    if s.len() == 0 {
        Err(IntError::Empty)
    } else if (s[0] == '+' || s[0] == '-') && s.len() == 1 {
        Err(IntError::InvalidDigit)
    } else if s[0] == '+' {
        scan_digits(0, s.drop_first(), false, lo, hi)
    } else if s[0] == '-' && lo < 0 {
        scan_digits(0, s.drop_first(), true, lo, hi)
    } else {
        scan_digits(0, s, false, lo, hi)
    }
}

/// The decimal digits of `n`, without leading zeros.
pub open spec fn decimal(n: nat) -> Seq<char>
    decreases n,
{
    if n < 10 {
        seq![digit_char(n as int)]
    } else {
        decimal(n / 10).push(digit_char((n % 10) as int))
    }
}

/// The text of `v`: its decimal digits, after a `-` where it is negative.
pub open spec fn int_text(v: int) -> Seq<char> {
    if v < 0 {
        seq!['-'] + decimal((-v) as nat)
    } else {
        decimal(v as nat)
    }
}

proof fn lemma_digit_char(d: int)
    requires
        0 <= d < 10,
    ensures
        is_digit(digit_char(d)),
        digit_value(digit_char(d)) == d,
{
}

proof fn lemma_decimal_digits(n: nat)
    ensures
        decimal(n).len() >= 1,
        forall|i: int| 0 <= i < decimal(n).len() ==> is_digit(#[trigger] decimal(n)[i]),
    decreases n,
{
    lemma_digit_char((n % 10) as int);
    if n >= 10 {
        lemma_decimal_digits(n / 10);
    }
}

proof fn lemma_scan_append(acc: int, s1: Seq<char>, s2: Seq<char>, neg: bool, lo: int, hi: int)
    ensures
        scan_digits(acc, s1 + s2, neg, lo, hi) == (match scan_digits(acc, s1, neg, lo, hi) {
            Ok(a) => scan_digits(a, s2, neg, lo, hi),
            Err(e) => Err(e),
        }),
    decreases s1.len(),
{
    if s1.len() > 0 {
        assert((s1 + s2)[0] == s1[0]);
        assert((s1 + s2).drop_first() =~= s1.drop_first() + s2);
        let next = if neg {
            acc * 10 - digit_value(s1[0])
        } else {
            acc * 10 + digit_value(s1[0])
        };
        lemma_scan_append(next, s1.drop_first(), s2, neg, lo, hi);
    } else {
        assert(s1 + s2 =~= s2);
    }
}

proof fn lemma_scan_one(acc: int, c: char, neg: bool, lo: int, hi: int)
    requires
        is_digit(c),
        lo <= (if neg { acc * 10 - digit_value(c) } else { acc * 10 + digit_value(c) }) <= hi,
    ensures
        scan_digits(acc, seq![c], neg, lo, hi) == Ok::<int, IntError>(if neg {
            acc * 10 - digit_value(c)
        } else {
            acc * 10 + digit_value(c)
        }),
{
    let s = seq![c];
    assert(s.len() == 1);
    assert(s[0] == c);
    assert(s.drop_first() =~= Seq::<char>::empty());
    let next = if neg { acc * 10 - digit_value(c) } else { acc * 10 + digit_value(c) };
    assert(scan_digits(next, s.drop_first(), neg, lo, hi) == Ok::<int, IntError>(next));
}

proof fn lemma_scan_decimal(n: nat, neg: bool, lo: int, hi: int)
    requires
        lo <= 0 <= hi,
        !neg ==> n <= hi,
        neg ==> -n >= lo,
    ensures
        scan_digits(0, decimal(n), neg, lo, hi) == Ok::<int, IntError>(if neg {
            -n
        } else {
            n as int
        }),
    decreases n,
{
    let d = (n % 10) as int;
    lemma_digit_char(d);
    let c = digit_char(d);
    if n < 10 {
        assert(d == n);
        lemma_scan_one(0, c, neg, lo, hi);
    } else {
        let m = n / 10;
        assert(m * 10 + d == n);
        lemma_scan_decimal(m, neg, lo, hi);
        lemma_scan_append(0, decimal(m), seq![c], neg, lo, hi);
        assert(decimal(m).push(c) =~= decimal(m) + seq![c]);
        let a: int = if neg { -m } else { m as int };
        lemma_scan_one(a, c, neg, lo, hi);
    }
}

/// The text of an integer in `lo..=hi` reads back as that integer.
pub proof fn lemma_parse_int_text(v: int, lo: int, hi: int)
    requires
        lo <= 0 <= hi,
        lo <= v <= hi,
    ensures
        parse_int_spec(int_text(v), lo, hi) == Ok::<int, IntError>(v),
{
    if v < 0 {
        let m = (-v) as nat;
        lemma_decimal_digits(m);
        lemma_scan_decimal(m, true, lo, hi);
        assert((seq!['-'] + decimal(m)).drop_first() =~= decimal(m));
    } else {
        let m = v as nat;
        lemma_decimal_digits(m);
        lemma_scan_decimal(m, false, lo, hi);
        assert(decimal(m)[0] != '+' && decimal(m)[0] != '-');
    }
}

proof fn lemma_scan_range(acc: int, s: Seq<char>, neg: bool, lo: int, hi: int)
    requires
        lo <= acc <= hi,
    ensures
        scan_digits(acc, s, neg, lo, hi) matches Ok(v) ==> lo <= v <= hi,
    decreases s.len(),
{
    if s.len() > 0 && is_digit(s[0]) {
        let next = if neg {
            acc * 10 - digit_value(s[0])
        } else {
            acc * 10 + digit_value(s[0])
        };
        if lo <= next <= hi {
            lemma_scan_range(next, s.drop_first(), neg, lo, hi);
        }
    }
}

/// What `s` denotes in `lo..=hi` lies in `lo..=hi`.
pub proof fn lemma_parse_int_range(s: Seq<char>, lo: int, hi: int)
    requires
        lo <= 0 <= hi,
    ensures
        parse_int_spec(s, lo, hi) matches Ok(v) ==> lo <= v <= hi,
{
    if s.len() > 0 {
        lemma_scan_range(0, s.drop_first(), true, lo, hi);
        lemma_scan_range(0, s.drop_first(), false, lo, hi);
        lemma_scan_range(0, s, false, lo, hi);
    }
}

/// Bound on the magnitudes that `parse_int` handles: 2^64.
pub const INT_BOUND: i128 = 0x1_0000_0000_0000_0000;

/// Parses `s` as an integer in `lo..=hi`.
pub fn parse_int(s: &str, lo: i128, hi: i128) -> (r: Result<i128, IntError>)
    requires
        -INT_BOUND <= lo <= 0 <= hi <= INT_BOUND,
    ensures
        match parse_int_spec(s@, lo as int, hi as int) {
            Ok(v) => r == Ok::<i128, IntError>(v as i128),
            Err(e) => r == Err::<i128, IntError>(e),
        },
        r matches Ok(v) ==> lo <= v <= hi,
{
    proof {
        lemma_parse_int_range(s@, lo as int, hi as int);
    }
    let n = s.unicode_len();
    if n == 0 {
        return Err(IntError::Empty);
    }
    let c0 = s.get_char(0);
    if (c0 == '+' || c0 == '-') && n == 1 {
        return Err(IntError::InvalidDigit);
    }
    let neg: bool = c0 == '-' && lo < 0;
    let start: usize = if c0 == '+' || neg {
        1
    } else {
        0
    };
    proof {
        if start == 1 {
            assert(s@.drop_first() =~= s@.subrange(1, n as int));
        } else {
            assert(s@ =~= s@.subrange(0, n as int));
        }
    }
    let mut acc: i128 = 0;
    let mut i: usize = start;
    while i < n
        invariant
            start <= i <= n,
            n == s@.len(),
            -INT_BOUND <= lo <= 0 <= hi <= INT_BOUND,
            lo <= acc <= hi,
            parse_int_spec(s@, lo as int, hi as int) == scan_digits(
                acc as int,
                s@.subrange(i as int, n as int),
                neg,
                lo as int,
                hi as int,
            ),
        decreases n - i,
    {
        let c = s.get_char(i);
        let rest = Ghost(s@.subrange(i as int, n as int));
        assert(rest@[0] == c);
        assert(rest@.drop_first() =~= s@.subrange(i + 1, n as int));
        if !('0' <= c && c <= '9') {
            return Err(IntError::InvalidDigit);
        }
        let d: i128 = (c as u32 - '0' as u32) as i128;
        assert(d == digit_value(c));
        let next: i128 = if neg {
            acc * 10 - d
        } else {
            acc * 10 + d
        };
        if next > hi {
            return Err(IntError::PosOverflow);
        }
        if next < lo {
            return Err(IntError::NegOverflow);
        }
        acc = next;
        i = i + 1;
    }
    assert(s@.subrange(n as int, n as int) =~= Seq::<char>::empty());
    Ok(acc)
}

fn digit_str(d: u64) -> (r: &'static str)
    requires
        d < 10,
    ensures
        r@ == seq![digit_char(d as int)],
{
    proof {
        reveal_strlit("0");
        reveal_strlit("1");
        reveal_strlit("2");
        reveal_strlit("3");
        reveal_strlit("4");
        reveal_strlit("5");
        reveal_strlit("6");
        reveal_strlit("7");
        reveal_strlit("8");
        reveal_strlit("9");
    }
    match d {
        0 => "0",
        1 => "1",
        2 => "2",
        3 => "3",
        4 => "4",
        5 => "5",
        6 => "6",
        7 => "7",
        8 => "8",
        _ => "9",
    }
}

/// Appends the decimal digits of `n` to `out`.
pub fn push_decimal(out: &mut String, n: u64)
    ensures
        final(out)@ == old(out)@ + decimal(n as nat),
    decreases n,
{
    if n >= 10 {
        push_decimal(out, n / 10);
    }
    out.append(digit_str(n % 10));
    proof {
        if n >= 10 {
            assert(decimal(n as nat) == decimal((n / 10) as nat).push(digit_char((n % 10) as int)));
        }
    }
    assert(final(out)@ =~= old(out)@ + decimal(n as nat));
}

/// The text of `v`, as `Display` writes an integer.
pub fn int_to_string(v: i128) -> (r: String)
    requires
        -INT_BOUND < v < INT_BOUND,
    ensures
        r@ == int_text(v as int),
{
    let mut out = String::new();
    if v < 0 {
        out.append("-");
        proof {
            reveal_strlit("-");
        }
        push_decimal(&mut out, (-v) as u64);
    } else {
        push_decimal(&mut out, v as u64);
    }
    assert(out@ =~= int_text(v as int));
    out
}

} // verus!
