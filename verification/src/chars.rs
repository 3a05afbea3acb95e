//! Character-level text utilities: classification of digits and
//! whitespace, trimming, decimal digit runs, and rendering and parsing
//! of decimal numbers.
//!
//! The calendar file format is defined character by character, so the
//! grammar specifications in the rest of the crate are built on the
//! spec functions of this module.

use vstd::prelude::*;
use vstd::string::*;

verus! {

/// An ASCII decimal digit `'0'..='9'`.
pub open spec fn is_digit(c: char) -> bool {
    48 <= (c as u32) && (c as u32) <= 57
}

/// The numeric value of an ASCII decimal digit.
pub open spec fn digit_val(c: char) -> nat
    recommends
        is_digit(c),
{
    ((c as u32) - 48) as nat
}

/// A whitespace character, exactly the set that `str::trim` removes
/// (the Unicode `White_Space` property).
pub open spec fn is_space(c: char) -> bool {
    let u = c as u32;
    u == 9 || u == 10 || u == 11 || u == 12 || u == 13 || u == 32 || u == 0x85 || u == 0xA0 || u
        == 0x1680 || (0x2000 <= u && u <= 0x200A) || u == 0x2028 || u == 0x2029 || u == 0x202F || u
        == 0x205F || u == 0x3000
}

pub fn is_digit_exec(c: char) -> (b: bool)
    ensures
        b == is_digit(c),
{
    let u = c as u32;
    48 <= u && u <= 57
}

pub fn is_space_exec(c: char) -> (b: bool)
    ensures
        b == is_space(c),
{
    let u = c as u32;
    u == 9 || u == 10 || u == 11 || u == 12 || u == 13 || u == 32 || u == 0x85 || u == 0xA0 || u
        == 0x1680 || (0x2000 <= u && u <= 0x200A) || u == 0x2028 || u == 0x2029 || u == 0x202F || u
        == 0x205F || u == 0x3000
}

/// The sequence with its leading whitespace removed.
pub open spec fn trim_start_rec(s: Seq<char>) -> Seq<char>
    decreases s.len(),
{
    if s.len() > 0 && is_space(s[0]) {
        trim_start_rec(s.drop_first())
    } else {
        s
    }
}

/// The sequence with its trailing whitespace removed.
pub open spec fn trim_end_rec(s: Seq<char>) -> Seq<char>
    decreases s.len(),
{
    if s.len() > 0 && is_space(s[s.len() - 1]) {
        trim_end_rec(s.drop_last())
    } else {
        s
    }
}

/// The sequence with whitespace removed from both ends, as `str::trim`
/// does.
pub open spec fn seq_trim(s: Seq<char>) -> Seq<char> {
    trim_end_rec(trim_start_rec(s))
}

/// `trim_start_rec` drops exactly the chars before the first
/// non-whitespace position.
pub proof fn lemma_trim_start_at(s: Seq<char>, i: int)
    requires
        0 <= i <= s.len(),
        forall|j: int| 0 <= j < i ==> is_space(s[j]),
        i < s.len() ==> !is_space(s[i]),
    ensures
        trim_start_rec(s) =~= s.subrange(i, s.len() as int),
    decreases i,
{
    if i == 0 {
        if s.len() > 0 && is_space(s[0]) {
            assert(false);
        }
        assert(trim_start_rec(s) =~= s.subrange(0, s.len() as int));
    } else {
        let t = s.drop_first();
        assert(forall|j: int| 0 <= j < i - 1 ==> is_space(t[j]));
        lemma_trim_start_at(t, i - 1);
        assert(t.subrange(i - 1, t.len() as int) =~= s.subrange(i, s.len() as int));
    }
}

/// `trim_end_rec` drops exactly the chars at and after the last
/// non-whitespace position.
pub proof fn lemma_trim_end_at(s: Seq<char>, b: int)
    requires
        0 <= b <= s.len(),
        forall|j: int| b <= j < s.len() ==> is_space(s[j]),
        b > 0 ==> !is_space(s[b - 1]),
    ensures
        trim_end_rec(s) =~= s.subrange(0, b),
    decreases s.len() - b,
{
    if b == s.len() {
        if s.len() > 0 && is_space(s[s.len() - 1]) {
            assert(false);
        }
        assert(trim_end_rec(s) =~= s.subrange(0, b));
    } else {
        let t = s.drop_last();
        assert(forall|j: int| b <= j < t.len() ==> is_space(t[j]));
        lemma_trim_end_at(t, b);
    }
}

/// `trim_start_rec` keeps a suffix: the input is some whitespace, then
/// the result, which starts with a non-whitespace character if it is
/// nonempty.
pub proof fn lemma_trim_start_structure(s: Seq<char>) -> (a: int)
    ensures
        0 <= a <= s.len(),
        trim_start_rec(s) =~= s.subrange(a, s.len() as int),
        forall|j: int| 0 <= j < a ==> is_space(s[j]),
        a < s.len() ==> !is_space(s[a]),
    decreases s.len(),
{
    if s.len() > 0 && is_space(s[0]) {
        let a0 = lemma_trim_start_structure(s.drop_first());
        assert(s.drop_first().subrange(a0, s.len() - 1) =~= s.subrange(a0 + 1, s.len() as int));
        assert(forall|j: int| 1 <= j < a0 + 1 ==> s[j] == s.drop_first()[j - 1]);
        a0 + 1
    } else {
        assert(s.subrange(0, s.len() as int) =~= s);
        0
    }
}

/// `trim_end_rec` keeps a prefix: the input is the result, which ends
/// with a non-whitespace character if it is nonempty, then some
/// whitespace.
pub proof fn lemma_trim_end_structure(s: Seq<char>) -> (b: int)
    ensures
        0 <= b <= s.len(),
        trim_end_rec(s) =~= s.subrange(0, b),
        forall|j: int| b <= j < s.len() ==> is_space(s[j]),
        b > 0 ==> !is_space(s[b - 1]),
    decreases s.len(),
{
    if s.len() > 0 && is_space(s[s.len() - 1]) {
        let b = lemma_trim_end_structure(s.drop_last());
        assert(s.drop_last().subrange(0, b) =~= s.subrange(0, b));
        assert(forall|j: int| b <= j < s.len() - 1 ==> s[j] == s.drop_last()[j]);
        b
    } else {
        assert(s.subrange(0, s.len() as int) =~= s);
        s.len() as int
    }
}

/// The trimmed text sits inside the input as a subrange with only
/// whitespace around it, and no whitespace at its own ends.
pub proof fn lemma_seq_trim_structure(s: Seq<char>) -> (r: (int, int))
    ensures
        0 <= r.0 <= r.1 <= s.len(),
        seq_trim(s) =~= s.subrange(r.0, r.1),
        forall|j: int| 0 <= j < r.0 ==> is_space(s[j]),
        forall|j: int| r.1 <= j < s.len() ==> is_space(s[j]),
        r.0 < r.1 ==> !is_space(s[r.0]) && !is_space(s[r.1 - 1]),
{
    let a = lemma_trim_start_structure(s);
    let t1 = trim_start_rec(s);
    let b1 = lemma_trim_end_structure(t1);
    let b = a + b1;
    assert(t1.subrange(0, b1) =~= s.subrange(a, b));
    if a < b {
        assert(!is_space(s[a]));
        assert(s[b - 1] == t1[b1 - 1]);
    }
    assert(forall|j: int| b <= j < s.len() ==> is_space(s[j])) by {
        assert(forall|j: int| b1 <= j < t1.len() ==> is_space(t1[j]));
        assert(forall|j: int| b <= j < s.len() ==> s[j] == t1[j - a]);
    }
    (a, b)
}

/// Removes leading and trailing whitespace, as `str::trim` does.
pub fn trim_str<'a>(s: &'a str) -> (r: &'a str)
    ensures
        r@ == seq_trim(s@),
{
    let n = s.unicode_len();
    let mut a: usize = 0;
    while a < n && is_space_exec(s.get_char(a))
        invariant
            0 <= a <= n,
            n == s@.len(),
            forall|j: int| 0 <= j < a ==> is_space(s@[j]),
        decreases n - a,
    {
        a = a + 1;
    }
    proof {
        lemma_trim_start_at(s@, a as int);
    }
    let ghost t = s@.subrange(a as int, n as int);
    let mut b: usize = n;
    while b > a && is_space_exec(s.get_char(b - 1))
        invariant
            a <= b <= n,
            n == s@.len(),
            forall|j: int| b <= j < n ==> is_space(s@[j]),
        decreases b,
    {
        b = b - 1;
    }
    proof {
        assert(forall|j: int| b - a <= j < t.len() ==> is_space(t[j]));
        lemma_trim_end_at(t, b - a);
        assert(t.subrange(0, b - a) =~= s@.subrange(a as int, b as int));
    }
    s.substring_char(a, b)
}

/// Every character of the sequence is an ASCII decimal digit.
pub open spec fn all_digits(s: Seq<char>) -> bool {
    forall|i: int| 0 <= i < s.len() ==> is_digit(s[i])
}

/// The value of a run of decimal digits, most significant first.
pub open spec fn digits_val(s: Seq<char>) -> nat
    recommends
        all_digits(s),
    decreases s.len(),
{
    if s.len() == 0 {
        0
    } else {
        digits_val(s.drop_last()) * 10 + digit_val(s.last())
    }
}

/// A digit run's value never shrinks when digits are appended.
pub proof fn lemma_digits_val_prefix_le(s: Seq<char>, i: int)
    requires
        0 <= i <= s.len(),
    ensures
        digits_val(s.subrange(0, i)) <= digits_val(s),
    decreases s.len() - i,
{
    if i == s.len() {
        assert(s.subrange(0, i) =~= s);
    } else {
        let t = s.subrange(0, i + 1);
        assert(t.drop_last() =~= s.subrange(0, i));
        lemma_digits_val_prefix_le(s, i + 1);
    }
}

/// Reads the value of the digit run `s@[from..to]`; `None` when the
/// value does not fit in a `u32`.
pub fn parse_u32_digits(s: &str, from: usize, to: usize) -> (r: Option<u32>)
    requires
        from <= to <= s@.len(),
        forall|j: int| from <= j < to ==> is_digit(s@[j]),
    ensures
        match r {
            Some(v) => v == digits_val(s@.subrange(from as int, to as int)),
            None => digits_val(s@.subrange(from as int, to as int)) > u32::MAX,
        },
{
    let ghost ds = s@.subrange(from as int, to as int);
    let mut acc: u32 = 0;
    let mut i: usize = from;
    while i < to
        invariant
            from <= i <= to <= s@.len(),
            ds == s@.subrange(from as int, to as int),
            forall|j: int| from <= j < to ==> is_digit(s@[j]),
            acc == digits_val(ds.subrange(0, i - from)),
        decreases to - i,
    {
        let c = s.get_char(i);
        let d: u32 = (c as u32) - 48;
        proof {
            let pre = ds.subrange(0, i - from);
            let nxt = ds.subrange(0, i + 1 - from);
            assert(nxt.drop_last() =~= pre);
            assert(nxt.last() == s@[i as int]);
        }
        if acc > (u32::MAX - d) / 10 {
            proof {
                let nxt = ds.subrange(0, i + 1 - from);
                assert(digits_val(nxt) == acc * 10 + d);
                assert(digits_val(nxt) > u32::MAX);
                lemma_digits_val_prefix_le(ds, i + 1 - from);
            }
            return None;
        }
        acc = acc * 10 + d;
        i = i + 1;
    }
    proof {
        assert(ds.subrange(0, to - from) =~= ds);
    }
    Some(acc)
}

/// The decimal digit character for a value below ten.
pub open spec fn digit_char(d: nat) -> char
    recommends
        d < 10,
{
    if d == 0 {
        '0'
    } else if d == 1 {
        '1'
    } else if d == 2 {
        '2'
    } else if d == 3 {
        '3'
    } else if d == 4 {
        '4'
    } else if d == 5 {
        '5'
    } else if d == 6 {
        '6'
    } else if d == 7 {
        '7'
    } else if d == 8 {
        '8'
    } else {
        '9'
    }
}

/// The decimal rendering of a natural number, without sign or padding,
/// as `u64`'s `Display` writes it.
pub open spec fn dec_str(n: nat) -> Seq<char>
    decreases n,
{
    if n < 10 {
        seq![digit_char(n)]
    } else {
        dec_str(n / 10).push(digit_char(n % 10))
    }
}

/// The decimal rendering of a signed number: a minus sign for negative
/// values, then the digits of the magnitude.
pub open spec fn dec_str_i64(v: int) -> Seq<char> {
    if v < 0 {
        seq!['-'] + dec_str((-v) as nat)
    } else {
        dec_str(v as nat)
    }
}

/// A decimal rendering consists of digits and reads back to its value.
pub proof fn lemma_dec_str_val(n: nat)
    ensures
        dec_str(n).len() >= 1,
        all_digits(dec_str(n)),
        digits_val(dec_str(n)) == n,
    decreases n,
{
    if n < 10 {
        assert(dec_str(n).drop_last() =~= Seq::<char>::empty());
        assert(digit_val(digit_char(n)) == n);
        assert(digits_val(dec_str(n)) == digits_val(dec_str(n).drop_last()) * 10 + digit_val(
            dec_str(n).last(),
        ));
    } else {
        lemma_dec_str_val(n / 10);
        assert(dec_str(n).drop_last() =~= dec_str(n / 10));
        assert(digit_val(digit_char(n % 10)) == n % 10);
        assert(digits_val(dec_str(n)) == digits_val(dec_str(n).drop_last()) * 10 + digit_val(
            dec_str(n).last(),
        ));
        vstd::arithmetic::div_mod::lemma_fundamental_div_mod(n as int, 10);
    }
}

fn digit_str(d: u32) -> (r: &'static str)
    requires
        d < 10,
    ensures
        r@ =~= seq![digit_char(d as nat)],
{
    proof {
        reveal_strlit("0");
        reveal_strlit("1");
        reveal_strlit("2");
        reveal_strlit("3");
        reveal_strlit("4");
        reveal_strlit("5");
        reveal_strlit("6");
        reveal_strlit("7");
        reveal_strlit("8");
        reveal_strlit("9");
    }
    match d {
        0 => "0",
        1 => "1",
        2 => "2",
        3 => "3",
        4 => "4",
        5 => "5",
        6 => "6",
        7 => "7",
        8 => "8",
        _ => "9",
    }
}

/// Renders a number in decimal, digit by digit from the left.
pub fn u64_to_dec(n: u64) -> (r: String)
    ensures
        r@ == dec_str(n as nat),
    decreases n,
{
    if n < 10 {
        String::from_str(digit_str(n as u32))
    } else {
        let mut r = u64_to_dec(n / 10);
        r.append(digit_str((n % 10) as u32));
        proof {
            assert(dec_str((n / 10) as nat).push(digit_char((n % 10) as nat)) =~= dec_str(
                (n / 10) as nat,
            ) + seq![digit_char((n % 10) as nat)]);
        }
        r
    }
}

/// The decimal rendering padded with zeros to at least two characters,
/// as formatting with a zero-padded width of two writes it.
pub open spec fn pad2(n: nat) -> Seq<char> {
    if n < 10 {
        seq!['0'] + dec_str(n)
    } else {
        dec_str(n)
    }
}

/// Renders a number zero-padded to at least two digits.
pub fn u32_to_pad2(n: u32) -> (r: String)
    ensures
        r@ == pad2(n as nat),
{
    if n < 10 {
        let mut r = String::from_str(digit_str(0));
        r.append(digit_str(n));
        proof {
            assert(seq![digit_char(0)] + seq![digit_char(n as nat)] =~= seq!['0'] + dec_str(
                n as nat,
            ));
        }
        r
    } else {
        u64_to_dec(n as u64)
    }
}

/// Renders a signed number in decimal, as `i64`'s `Display` does.
pub fn i64_to_dec(v: i64) -> (r: String)
    ensures
        r@ == dec_str_i64(v as int),
{
    if v < 0 {
        proof {
            reveal_strlit("-");
        }
        let mut r = String::from_str("-");
        let m: u64 = if v == i64::MIN {
            9223372036854775808u64
        } else {
            (-v) as u64
        };
        r.append(u64_to_dec(m).as_str());
        proof {
            assert(r@ =~= seq!['-'] + dec_str((-(v as int)) as nat));
        }
        r
    } else {
        u64_to_dec(v as u64)
    }
}

/// The digits of a signed decimal literal: everything after an optional
/// leading sign.
pub open spec fn int_literal_digits(s: Seq<char>) -> Seq<char> {
    if s.len() > 0 && (s[0] == '+' || s[0] == '-') {
        s.drop_first()
    } else {
        s
    }
}

/// What `str::parse::<i64>` returns: an optional sign followed by at
/// least one ASCII digit, rejected when the value leaves the `i64`
/// range.
pub open spec fn parse_i64_spec(s: Seq<char>) -> Option<i64> {
    let ds = int_literal_digits(s);
    if ds.len() == 0 || !all_digits(ds) {
        None
    } else {
        let v: int = if s.len() > 0 && s[0] == '-' {
            -(digits_val(ds) as int)
        } else {
            digits_val(ds) as int
        };
        if i64::MIN <= v <= i64::MAX {
            Some(v as i64)
        } else {
            None
        }
    }
}

/// Parses a signed decimal integer with exactly the acceptance rules of
/// `str::parse::<i64>`.
pub fn parse_i64(s: &str) -> (r: Option<i64>)
    ensures
        r == parse_i64_spec(s@),
{
    let n = s.unicode_len();
    if n == 0 {
        return None;
    }
    let c0 = s.get_char(0);
    let neg = c0 == '-';
    let start: usize = if neg || c0 == '+' {
        1
    } else {
        0
    };
    let ghost ds = int_literal_digits(s@);
    proof {
        if start == 1 {
            assert(ds =~= s@.subrange(1, n as int));
        } else {
            assert(ds =~= s@.subrange(0, n as int));
            assert(s@.subrange(0, n as int) =~= s@);
        }
    }
    if start == n {
        return None;
    }
    let mut acc: u64 = 0;
    let mut i: usize = start;
    while i < n
        invariant
            start <= i <= n,
            n == s@.len(),
            start == 0 || start == 1,
            ds == int_literal_digits(s@),
            ds.len() == n - start,
            forall|j: int| start <= j < i ==> #[trigger] is_digit(s@[j]),
            forall|j: int| 0 <= j < ds.len() ==> ds[j] == s@[start + j],
            acc == digits_val(ds.subrange(0, i - start)),
        decreases n - i,
    {
        let c = s.get_char(i);
        if !is_digit_exec(c) {
            proof {
                assert(!is_digit(ds[i - start]));
            }
            return None;
        }
        let d: u64 = ((c as u32) - 48) as u64;
        proof {
            let pre = ds.subrange(0, i - start);
            let nxt = ds.subrange(0, i + 1 - start);
            assert(nxt.drop_last() =~= pre);
            assert(nxt.last() == s@[i as int]);
        }
        if acc > (u64::MAX - d) / 10 {
            proof {
                let nxt = ds.subrange(0, i + 1 - start);
                assert(digits_val(nxt) == acc * 10 + d);
                lemma_digits_val_prefix_le(ds, i + 1 - start);
                assert(digits_val(ds) >= digits_val(nxt));
            }
            return None;
        }
        acc = acc * 10 + d;
        i = i + 1;
    }
    proof {
        assert(ds.subrange(0, n - start) =~= ds);
    }
    if neg {
        if acc <= 9223372036854775808u64 {
            if acc == 9223372036854775808u64 {
                Some(i64::MIN)
            } else {
                Some(-(acc as i64))
            }
        } else {
            None
        }
    } else {
        if acc <= i64::MAX as u64 {
            Some(acc as i64)
        } else {
            None
        }
    }
}

/// A signed decimal rendering parses back to the value it was made
/// from: the watermark survives a round trip through its stored string.
pub proof fn lemma_dec_round_trip(v: i64)
    ensures
        parse_i64_spec(dec_str_i64(v as int)) == Some(v),
{
    if v < 0 {
        let m = (-(v as int)) as nat;
        lemma_dec_str_val(m);
        let s = dec_str_i64(v as int);
        assert(s[0] == '-');
        assert(int_literal_digits(s) =~= dec_str(m));
    } else {
        let s = dec_str_i64(v as int);
        lemma_dec_str_val(v as nat);
        assert(s.len() > 0);
        assert(is_digit(s[0]));
        assert(s[0] != '+' && s[0] != '-');
        assert(int_literal_digits(s) =~= s);
    }
}

/// The character sequences of a sequence of strings.
pub open spec fn strs_view(s: Seq<String>) -> Seq<Seq<char>> {
    s.map_values(|x: String| x@)
}

/// Compares two string slices character by character.
pub fn str_eq_str(a: &str, b: &str) -> (r: bool)
    ensures
        r == (a@ == b@),
{
    let na = a.unicode_len();
    let nb = b.unicode_len();
    if na != nb {
        return false;
    }
    let mut i: usize = 0;
    while i < na
        invariant
            0 <= i <= na,
            na == a@.len(),
            na == b@.len(),
            forall|j: int| 0 <= j < i ==> a@[j] == b@[j],
        decreases na - i,
    {
        if a.get_char(i) != b.get_char(i) {
            return false;
        }
        i = i + 1;
    }
    proof {
        assert(a@ =~= b@);
    }
    true
}

} // verus!
