//! Character-level helpers: decimal and floating-point literal recognition
//! (the grammars that `str::parse` accepts), decimal rendering, and string
//! comparison and concatenation with exact contracts.

use vstd::prelude::*;

verus! {

// ---------------------------------------------------------------------------
// Specifications
// ---------------------------------------------------------------------------

pub open spec fn is_digit(c: char) -> bool {
    '0' <= c && c <= '9'
}

pub open spec fn digit_value(c: char) -> nat {
    (c as int - '0' as int) as nat
}

pub open spec fn all_digits(s: Seq<char>) -> bool {
    forall|i: int| 0 <= i < s.len() ==> is_digit(#[trigger] s[i])
}

/// The number that a string of decimal digits denotes.
pub open spec fn digits_value(s: Seq<char>) -> nat
    decreases s.len(),
{
    if s.len() == 0 {
        0
    } else {
        digits_value(s.drop_last()) * 10 + digit_value(s.last())
    }
}

/// The value of a non-empty run of decimal digits.
pub open spec fn digits_literal(d: Seq<char>) -> Option<nat> {
    if d.len() > 0 && all_digits(d) {
        Some(digits_value(d))
    } else {
        None
    }
}

/// What an unsigned integer literal denotes: an optional `+`, then one or
/// more decimal digits (the grammar of `u16::from_str` and its siblings).
pub open spec fn unsigned_literal(s: Seq<char>) -> Option<nat> {
    if s.len() > 0 && s[0] == '+' {
        digits_literal(s.drop_first())
    } else {
        digits_literal(s)
    }
}

/// What a signed integer literal denotes: an optional `+` or `-`, then one
/// or more decimal digits (the grammar of `i64::from_str`).
pub open spec fn signed_literal(s: Seq<char>) -> Option<int> {
    if s.len() > 0 && s[0] == '-' {
        match digits_literal(s.drop_first()) {
            Some(v) => Some(-(v as int)),
            None => None,
        }
    } else {
        match unsigned_literal(s) {
            Some(v) => Some(v as int),
            None => None,
        }
    }
}

/// The value `str::parse::<T>()` yields for an unsigned `T` whose largest
/// value is `max`.
pub open spec fn parse_unsigned_spec(s: Seq<char>, max: nat) -> Option<nat> {
    match unsigned_literal(s) {
        Some(v) => if v <= max {
            Some(v)
        } else {
            None
        },
        None => None,
    }
}

/// The value `str::parse::<i64>()` yields.
pub open spec fn parse_i64_spec(s: Seq<char>) -> Option<i64> {
    match signed_literal(s) {
        Some(v) => if i64::MIN <= v <= i64::MAX {
            Some(v as i64)
        } else {
            None
        },
        None => None,
    }
}

pub open spec fn is_sign(c: char) -> bool {
    c == '+' || c == '-'
}

pub open spec fn is_exp_marker(c: char) -> bool {
    c == 'e' || c == 'E'
}

/// `s` spells `lower` with each letter in either case.
pub open spec fn spells_ci(s: Seq<char>, lower: Seq<char>, upper: Seq<char>) -> bool {
    &&& s.len() == lower.len()
    &&& s.len() == upper.len()
    &&& forall|i: int| 0 <= i < s.len() ==> (#[trigger] s[i] == lower[i] || s[i] == upper[i])
}

/// `Digit+ | Digit+ '.' Digit* | Digit* '.' Digit+`
pub open spec fn float_mantissa(m: Seq<char>) -> bool {
    ||| (m.len() > 0 && all_digits(m))
    ||| exists|d: int|
        0 <= d < m.len() && m[d] == '.' && m.len() >= 2 && all_digits(#[trigger] m.take(d))
            && all_digits(m.skip(d + 1))
}

/// What follows the exponent marker: `Sign? Digit+`
pub open spec fn float_exponent_digits(x: Seq<char>) -> bool {
    if x.len() > 0 && is_sign(x[0]) {
        x.len() >= 2 && all_digits(x.drop_first())
    } else {
        x.len() > 0 && all_digits(x)
    }
}

/// `Number ::= Mantissa Exp?` with `Exp ::= 'e' Sign? Digit+`
pub open spec fn float_number(b: Seq<char>) -> bool {
    ||| float_mantissa(b)
    ||| exists|k: int|
        0 <= k < b.len() && is_exp_marker(b[k]) && float_mantissa(#[trigger] b.take(k))
            && float_exponent_digits(b.skip(k + 1))
}

/// The grammar that `str::parse::<f64>()` accepts (its documentation gives
/// it, letters compared without regard to case):
/// `Sign? ( 'inf' | 'infinity' | 'nan' | Number )`.
pub open spec fn float_literal(s: Seq<char>) -> bool {
    let b = if s.len() > 0 && is_sign(s[0]) {
        s.drop_first()
    } else {
        s
    };
    ||| spells_ci(b, seq!['i', 'n', 'f'], seq!['I', 'N', 'F'])
    ||| spells_ci(
        b,
        seq!['i', 'n', 'f', 'i', 'n', 'i', 't', 'y'],
        seq!['I', 'N', 'F', 'I', 'N', 'I', 'T', 'Y'],
    )
    ||| spells_ci(b, seq!['n', 'a', 'n'], seq!['N', 'A', 'N'])
    ||| float_number(b)
}

pub open spec fn digit_char(d: nat) -> char {
    if d == 0 {
        '0'
    } else if d == 1 {
        '1'
    } else if d == 2 {
        '2'
    } else if d == 3 {
        '3'
    } else if d == 4 {
        '4'
    } else if d == 5 {
        '5'
    } else if d == 6 {
        '6'
    } else if d == 7 {
        '7'
    } else if d == 8 {
        '8'
    } else {
        '9'
    }
}

/// The decimal rendering of `n`, as `Display` writes an unsigned integer.
pub open spec fn decimal(n: nat) -> Seq<char>
    decreases n,
{
    if n < 10 {
        seq![digit_char(n)]
    } else {
        decimal(n / 10).push(digit_char(n % 10))
    }
}

pub open spec fn starts_with(s: Seq<char>, prefix: Seq<char>) -> bool {
    prefix.len() <= s.len() && s.take(prefix.len() as int) == prefix
}

// ---------------------------------------------------------------------------
// Lemmas
// ---------------------------------------------------------------------------

proof fn lemma_digits_value_prefix_le(s: Seq<char>, k: int)
    requires
        0 <= k <= s.len(),
    ensures
        digits_value(s.take(k)) <= digits_value(s),
    decreases s.len(),
{
    if k < s.len() {
        lemma_digits_value_prefix_le(s.drop_last(), k);
        assert(s.drop_last().take(k) =~= s.take(k));
    } else {
        assert(s.take(k) =~= s);
    }
}

proof fn lemma_digits_value_step(s: Seq<char>, i: int)
    requires
        0 <= i < s.len(),
    ensures
        digits_value(s.take(i + 1)) == digits_value(s.take(i)) * 10 + digit_value(s[i]),
{
    assert(s.take(i + 1).drop_last() =~= s.take(i));
}

// ---------------------------------------------------------------------------
// Executable helpers
// ---------------------------------------------------------------------------

/// The characters of `s`, in order.
pub fn chars_of(s: &str) -> (v: Vec<char>)
    ensures
        v@ == s@,
{
    let mut v: Vec<char> = Vec::new();
    for c in it: s.chars()
        invariant
            it.seq() == s@,
            v@ == it.seq().take(it.index() as int),
    {
        v.push(c);
        assert(v@ =~= it.seq().take(it.index() + 1));
    }
    assert(v@ =~= s@);
    v
}

/// Whether `a` and `b` hold the same characters.
pub fn str_eq(a: &str, b: &str) -> (eq: bool)
    ensures
        eq == (a@ == b@),
{
    let x = chars_of(a);
    let y = chars_of(b);
    if x.len() != y.len() {
        return false;
    }
    let n = x.len();
    for i in 0..n
        invariant
            n == x@.len(),
            n == y@.len(),
            x@ == a@,
            y@ == b@,
            forall|j: int| 0 <= j < i ==> x@[j] == y@[j],
    {
        if x[i] != y[i] {
            assert(x@[i as int] != y@[i as int]);
            return false;
        }
    }
    assert(x@ =~= y@);
    true
}

/// Whether `s` begins with `prefix`.
pub fn str_starts_with(s: &str, prefix: &str) -> (r: bool)
    ensures
        r == starts_with(s@, prefix@),
{
    let x = chars_of(s);
    let p = chars_of(prefix);
    if p.len() > x.len() {
        return false;
    }
    let n = p.len();
    for i in 0..n
        invariant
            n == p@.len(),
            n <= x@.len(),
            x@ == s@,
            p@ == prefix@,
            forall|j: int| 0 <= j < i ==> x@[j] == p@[j],
    {
        if x[i] != p[i] {
            assert(x@.take(n as int)[i as int] == x@[i as int]);
            assert(x@.take(n as int)[i as int] != p@[i as int]);
            return false;
        }
    }
    assert(x@.take(n as int) =~= p@);
    true
}

/// A new string holding the characters of `s`.
pub fn owned(s: &str) -> (r: String)
    ensures
        r@ == s@,
{
    s.to_owned()
}

/// `a` followed by `b`.
pub fn concat2(a: &str, b: &str) -> (r: String)
    ensures
        r@ == a@ + b@,
{
    let mut r = a.to_owned();
    r.append(b);
    r
}

/// `a`, `b` and `c`, one after the other.
pub fn concat3(a: &str, b: &str, c: &str) -> (r: String)
    ensures
        r@ == a@ + b@ + c@,
{
    let mut r = a.to_owned();
    r.append(b);
    r.append(c);
    r
}

/// `a`, `b`, `c` and `d`, one after the other.
pub fn concat4(a: &str, b: &str, c: &str, d: &str) -> (r: String)
    ensures
        r@ == a@ + b@ + c@ + d@,
{
    let mut r = a.to_owned();
    r.append(b);
    r.append(c);
    r.append(d);
    r
}

/// `a`, `b`, `c`, `d` and `e`, one after the other.
pub fn concat5(a: &str, b: &str, c: &str, d: &str, e: &str) -> (r: String)
    ensures
        r@ == a@ + b@ + c@ + d@ + e@,
{
    let mut r = a.to_owned();
    r.append(b);
    r.append(c);
    r.append(d);
    r.append(e);
    r
}

fn digit_str(d: u64) -> (s: &'static str)
    requires
        d < 10,
    ensures
        s@ == seq![digit_char(d as nat)],
{
    proof {
        reveal_strlit("0");
        reveal_strlit("1");
        reveal_strlit("2");
        reveal_strlit("3");
        reveal_strlit("4");
        reveal_strlit("5");
        reveal_strlit("6");
        reveal_strlit("7");
        reveal_strlit("8");
        reveal_strlit("9");
    }
    match d {
        0 => "0",
        1 => "1",
        2 => "2",
        3 => "3",
        4 => "4",
        5 => "5",
        6 => "6",
        7 => "7",
        8 => "8",
        _ => "9",
    }
}

/// The decimal rendering of `n`.
pub fn decimal_string(n: u64) -> (s: String)
    ensures
        s@ == decimal(n as nat),
    decreases n,
{
    if n < 10 {
        owned(digit_str(n))
    } else {
        let mut s = decimal_string(n / 10);
        s.append(digit_str(n % 10));
        s
    }
}

/// The value of the decimal digits `cs[start..]`, when they are all digits,
/// there is at least one, and the value is at most `max`.
fn digits_at_most(cs: &Vec<char>, start: usize, max: u64) -> (r: Option<u64>)
    requires
        start <= cs@.len(),
    ensures
        r == (match digits_literal(cs@.skip(start as int)) {
            Some(v) => if v <= max {
                Some(v as u64)
            } else {
                None::<u64>
            },
            None => None::<u64>,
        }),
{
    let ghost d = cs@.skip(start as int);
    if start == cs.len() {
        return None;
    }
    let mut acc: u64 = 0;
    let mut i = start;
    while i < cs.len()
        invariant
            start <= i <= cs@.len(),
            d == cs@.skip(start as int),
            all_digits(d.take(i - start)),
            acc == digits_value(d.take(i - start)),
            acc <= max,
        decreases cs@.len() - i,
    {
        let c = cs[i];
        if !('0' <= c && c <= '9') {
            assert(!all_digits(d)) by {
                assert(d[i - start] == c);
            }
            return None;
        }
        let dv = (c as u32 - '0' as u32) as u64;
        let next: u128 = acc as u128 * 10 + dv as u128;
        proof {
            lemma_digits_value_step(d, i - start);
            assert(all_digits(d.take(i + 1 - start))) by {
                assert forall|j: int| 0 <= j < i + 1 - start implies is_digit(
                    #[trigger] d.take(i + 1 - start)[j],
                ) by {
                    if j < i - start {
                        assert(d.take(i + 1 - start)[j] == d.take(i - start)[j]);
                    }
                }
            }
        }
        if next > max as u128 {
            proof {
                if all_digits(d) {
                    lemma_digits_value_prefix_le(d, i + 1 - start);
                }
            }
            return None;
        }
        acc = next as u64;
        i = i + 1;
    }
    assert(d.take(i - start) =~= d);
    Some(acc)
}

/// `str::parse` for an unsigned integer type whose largest value is `max`.
pub fn parse_unsigned(s: &str, max: u64) -> (r: Option<u64>)
    ensures
        r matches Some(v) ==> parse_unsigned_spec(s@, max as nat) == Some(v as nat),
        r is None ==> parse_unsigned_spec(s@, max as nat) is None,
{
    let cs = chars_of(s);
    if cs.len() > 0 && cs[0] == '+' {
        assert(cs@.skip(1) =~= s@.drop_first());
        digits_at_most(&cs, 1, max)
    } else {
        assert(cs@.skip(0) =~= s@);
        digits_at_most(&cs, 0, max)
    }
}

/// `str::parse::<u16>()`.
pub fn parse_u16(s: &str) -> (r: Option<u16>)
    ensures
        r matches Some(v) ==> parse_unsigned_spec(s@, u16::MAX as nat) == Some(v as nat),
        r is None ==> parse_unsigned_spec(s@, u16::MAX as nat) is None,
{
    match parse_unsigned(s, 0xffff) {
        Some(v) => Some(v as u16),
        None => None,
    }
}

/// `str::parse::<u32>()`.
pub fn parse_u32(s: &str) -> (r: Option<u32>)
    ensures
        r matches Some(v) ==> parse_unsigned_spec(s@, u32::MAX as nat) == Some(v as nat),
        r is None ==> parse_unsigned_spec(s@, u32::MAX as nat) is None,
{
    match parse_unsigned(s, 0xffff_ffff) {
        Some(v) => Some(v as u32),
        None => None,
    }
}

/// `str::parse::<u64>()`.
pub fn parse_u64(s: &str) -> (r: Option<u64>)
    ensures
        r matches Some(v) ==> parse_unsigned_spec(s@, u64::MAX as nat) == Some(v as nat),
        r is None ==> parse_unsigned_spec(s@, u64::MAX as nat) is None,
{
    parse_unsigned(s, u64::MAX)
}

/// `str::parse::<usize>()`.
pub fn parse_usize(s: &str) -> (r: Option<usize>)
    ensures
        r matches Some(v) ==> parse_unsigned_spec(s@, usize::MAX as nat) == Some(v as nat),
        r is None ==> parse_unsigned_spec(s@, usize::MAX as nat) is None,
{
    match parse_unsigned(s, usize::MAX as u64) {
        Some(v) => Some(v as usize),
        None => None,
    }
}

/// `str::parse::<i64>()`.
pub fn parse_i64(s: &str) -> (r: Option<i64>)
    ensures
        r == parse_i64_spec(s@),
{
    let cs = chars_of(s);
    if cs.len() > 0 && cs[0] == '-' {
        assert(cs@.skip(1) =~= s@.drop_first());
        match digits_at_most(&cs, 1, 0x8000_0000_0000_0000) {
            Some(v) => {
                if v == 0x8000_0000_0000_0000 {
                    Some(i64::MIN)
                } else {
                    Some(-(v as i64))
                }
            },
            None => None,
        }
    } else {
        let plus = cs.len() > 0 && cs[0] == '+';
        let start: usize = if plus {
            1
        } else {
            0
        };
        assert(plus ==> cs@.skip(1) =~= s@.drop_first());
        assert(cs@.skip(0) =~= s@);
        match digits_at_most(&cs, start, 0x7fff_ffff_ffff_ffff) {
            Some(v) => Some(v as i64),
            None => None,
        }
    }
}

fn all_digits_in(cs: &Vec<char>, lo: usize, hi: usize) -> (r: bool)
    requires
        lo <= hi <= cs@.len(),
    ensures
        r == all_digits(cs@.subrange(lo as int, hi as int)),
{
    let mut i = lo;
    while i < hi
        invariant
            lo <= i <= hi <= cs@.len(),
            forall|j: int| lo <= j < i ==> is_digit(#[trigger] cs@[j]),
        decreases hi - i,
    {
        if !('0' <= cs[i] && cs[i] <= '9') {
            assert(cs@.subrange(lo as int, hi as int)[i - lo] == cs@[i as int]);
            return false;
        }
        i = i + 1;
    }
    assert forall|j: int| 0 <= j < hi - lo implies is_digit(
        #[trigger] cs@.subrange(lo as int, hi as int)[j],
    ) by {
        assert(cs@.subrange(lo as int, hi as int)[j] == cs@[lo + j]);
    }
    true
}

/// The first position in `lo..hi` that holds `c1` or `c2`.
fn find_either(cs: &Vec<char>, lo: usize, hi: usize, c1: char, c2: char) -> (r: Option<usize>)
    requires
        lo <= hi <= cs@.len(),
    ensures
        r matches Some(k) ==> lo <= k < hi && (cs@[k as int] == c1 || cs@[k as int] == c2) && (
        forall|j: int| lo <= j < k ==> cs@[j] != c1 && cs@[j] != c2),
        r is None ==> forall|j: int| lo <= j < hi ==> cs@[j] != c1 && cs@[j] != c2,
{
    let mut i = lo;
    while i < hi
        invariant
            lo <= i <= hi <= cs@.len(),
            forall|j: int| lo <= j < i ==> cs@[j] != c1 && cs@[j] != c2,
        decreases hi - i,
    {
        if cs[i] == c1 || cs[i] == c2 {
            return Some(i);
        }
        i = i + 1;
    }
    None
}

fn mantissa_in(cs: &Vec<char>, lo: usize, hi: usize) -> (r: bool)
    requires
        lo <= hi <= cs@.len(),
    ensures
        r == float_mantissa(cs@.subrange(lo as int, hi as int)),
{
    let ghost m = cs@.subrange(lo as int, hi as int);
    match find_either(cs, lo, hi, '.', '.') {
        None => {
            proof {
                assert forall|d: int| 0 <= d < m.len() implies m[d] != '.' by {
                    assert(m[d] == cs@[lo + d]);
                }
            }
            hi > lo && all_digits_in(cs, lo, hi)
        },
        Some(k) => {
            let r = hi - lo >= 2 && all_digits_in(cs, lo, k) && all_digits_in(cs, k + 1, hi);
            proof {
                let d0 = k - lo;
                assert(m[d0] == '.');
                assert(m.take(d0) =~= cs@.subrange(lo as int, k as int));
                assert(m.skip(d0 + 1) =~= cs@.subrange(k + 1, hi as int));
                assert(!all_digits(m)) by {
                    assert(!is_digit(m[d0]));
                }
                if float_mantissa(m) && !r {
                    let d = choose|d: int|
                        0 <= d < m.len() && m[d] == '.' && m.len() >= 2 && all_digits(
                            #[trigger] m.take(d),
                        ) && all_digits(m.skip(d + 1));
                    if d < d0 {
                        assert(cs@[lo + d] == m[d]);
                    } else if d > d0 {
                        assert(m.take(d)[d0] == m[d0]);
                    }
                }
            }
            r
        },
    }
}

fn exponent_in(cs: &Vec<char>, lo: usize, hi: usize) -> (r: bool)
    requires
        lo <= hi <= cs@.len(),
    ensures
        r == float_exponent_digits(cs@.subrange(lo as int, hi as int)),
{
    let ghost x = cs@.subrange(lo as int, hi as int);
    if hi > lo && (cs[lo] == '+' || cs[lo] == '-') {
        assert(x.drop_first() =~= cs@.subrange(lo + 1, hi as int));
        hi - lo >= 2 && all_digits_in(cs, lo + 1, hi)
    } else {
        hi > lo && all_digits_in(cs, lo, hi)
    }
}

fn number_in(cs: &Vec<char>, lo: usize, hi: usize) -> (r: bool)
    requires
        lo <= hi <= cs@.len(),
    ensures
        r == float_number(cs@.subrange(lo as int, hi as int)),
{
    let ghost b = cs@.subrange(lo as int, hi as int);
    match find_either(cs, lo, hi, 'e', 'E') {
        None => {
            let r = mantissa_in(cs, lo, hi);
            proof {
                if !r && float_number(b) {
                    let k = choose|k: int|
                        0 <= k < b.len() && is_exp_marker(b[k]) && float_mantissa(
                            #[trigger] b.take(k),
                        ) && float_exponent_digits(b.skip(k + 1));
                    assert(b[k] == cs@[lo + k]);
                }
            }
            r
        },
        Some(k) => {
            let r = mantissa_in(cs, lo, k) && exponent_in(cs, k + 1, hi);
            proof {
                let k0 = k - lo;
                assert(b.take(k0) =~= cs@.subrange(lo as int, k as int));
                assert(b.skip(k0 + 1) =~= cs@.subrange(k + 1, hi as int));
                assert(is_exp_marker(b[k0]));
                lemma_mantissa_has_no_exp_marker(b, k0);
                if !r && float_number(b) {
                    let k1 = choose|k1: int|
                        0 <= k1 < b.len() && is_exp_marker(b[k1]) && float_mantissa(
                            #[trigger] b.take(k1),
                        ) && float_exponent_digits(b.skip(k1 + 1));
                    if k1 < k0 {
                        assert(b[k1] == cs@[lo + k1]);
                    } else if k1 > k0 {
                        lemma_mantissa_has_no_exp_marker(b.take(k1), k0);
                        assert(b.take(k1)[k0] == b[k0]);
                    }
                }
            }
            r
        },
    }
}

/// Whether `s` is a literal that `str::parse::<f64>()` accepts.
pub fn is_float_literal(s: &str) -> (r: bool)
    ensures
        r == float_literal(s@),
{
    let cs = chars_of(s);
    let n = cs.len();
    let lo: usize = if n > 0 && (cs[0] == '+' || cs[0] == '-') {
        1
    } else {
        0
    };
    let ghost b = if s@.len() > 0 && is_sign(s@[0]) {
        s@.drop_first()
    } else {
        s@
    };
    assert(b =~= cs@.subrange(lo as int, n as int));
    let inf = ['i', 'n', 'f'];
    let inf_up = ['I', 'N', 'F'];
    let infinity = ['i', 'n', 'f', 'i', 'n', 'i', 't', 'y'];
    let infinity_up = ['I', 'N', 'F', 'I', 'N', 'I', 'T', 'Y'];
    let nan = ['n', 'a', 'n'];
    let nan_up = ['N', 'A', 'N'];
    assert(inf@ =~= seq!['i', 'n', 'f']);
    assert(inf_up@ =~= seq!['I', 'N', 'F']);
    assert(infinity@ =~= seq!['i', 'n', 'f', 'i', 'n', 'i', 't', 'y']);
    assert(infinity_up@ =~= seq!['I', 'N', 'F', 'I', 'N', 'I', 'T', 'Y']);
    assert(nan@ =~= seq!['n', 'a', 'n']);
    assert(nan_up@ =~= seq!['N', 'A', 'N']);
    spells_ci_in(&cs, lo, n, &inf, &inf_up) || spells_ci_in(&cs, lo, n, &infinity, &infinity_up)
        || spells_ci_in(&cs, lo, n, &nan, &nan_up) || number_in(&cs, lo, n)
}

fn spells_ci_in(cs: &Vec<char>, lo: usize, hi: usize, lower: &[char], upper: &[char]) -> (r: bool)
    requires
        lo <= hi <= cs@.len(),
    ensures
        r == spells_ci(cs@.subrange(lo as int, hi as int), lower@, upper@),
{
    let ghost w = cs@.subrange(lo as int, hi as int);
    if hi - lo != lower.len() || hi - lo != upper.len() {
        return false;
    }
    let mut i: usize = 0;
    while i < lower.len()
        invariant
            lo <= hi <= cs@.len(),
            hi - lo == lower@.len(),
            hi - lo == upper@.len(),
            w == cs@.subrange(lo as int, hi as int),
            i <= lower@.len(),
            forall|j: int| 0 <= j < i ==> (#[trigger] w[j] == lower@[j] || w[j] == upper@[j]),
        decreases lower@.len() - i,
    {
        let c = cs[lo + i];
        assert(w[i as int] == c);
        if c != lower[i] && c != upper[i] {
            return false;
        }
        i = i + 1;
    }
    true
}

proof fn lemma_mantissa_has_no_exp_marker(b: Seq<char>, k: int)
    requires
        0 <= k < b.len(),
        is_exp_marker(b[k]),
    ensures
        !float_mantissa(b),
{
    if float_mantissa(b) {
        if b.len() > 0 && all_digits(b) {
            assert(is_digit(b[k]));
        } else {
            let d = choose|d: int|
                0 <= d < b.len() && b[d] == '.' && b.len() >= 2 && all_digits(#[trigger] b.take(d))
                    && all_digits(b.skip(d + 1));
            if k < d {
                assert(b.take(d)[k] == b[k]);
            } else if k > d {
                assert(b.skip(d + 1)[k - d - 1] == b[k]);
            }
        }
    }
}

} // verus!
