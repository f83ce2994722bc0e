//! String helpers that work on the character sequence of a string.

use vstd::prelude::*;
use vstd::string::*;

verus! {

/// `n` copies of `s`, one after another.
pub open spec fn repeat_seq(s: Seq<char>, n: nat) -> Seq<char>
    decreases n,
{
    if n == 0 {
        Seq::empty()
    } else {
        repeat_seq(s, (n - 1) as nat) + s
    }
}

/// A sequence of `n` blanks.
pub open spec fn blanks(n: nat) -> Seq<char> {
    Seq::new(n, |i: int| ' ')
}

/// Appends one character to `s` (`String::push`).
#[verifier::external_body]
pub(crate) fn push_char(s: &mut String, c: char)
    ensures
        final(s)@ == old(s)@.push(c),
{
    s.push(c)
}

/// Number of characters (not bytes) of `s`.
pub fn char_count(s: &str) -> (n: usize)
    ensures
        n == s@.len(),
{
    s.unicode_len()
}

/// A string of `n` blanks.
pub fn spaces(n: usize) -> (r: String)
    ensures
        r@ == blanks(n as nat),
{
    let mut r = String::new();
    let mut i: usize = 0;
    while i < n
        invariant
            i <= n,
            r@ == blanks(i as nat),
        decreases n - i,
    {
        push_char(&mut r, ' ');
        i = i + 1;
        assert(r@ =~= blanks(i as nat));
    }
    r
}

/// `n` copies of `s`, one after another.
pub fn repeat_str(s: &str, n: usize) -> (r: String)
    ensures
        r@ == repeat_seq(s@, n as nat),
{
    let mut r = String::new();
    let mut i: usize = 0;
    while i < n
        invariant
            i <= n,
            r@ == repeat_seq(s@, i as nat),
        decreases n - i,
    {
        r.append(s);
        i = i + 1;
    }
    r
}

/// Whether `a` and `b` hold the same characters.
pub fn str_eq(a: &str, b: &str) -> (r: bool)
    ensures
        r == (a@ == b@),
{
    let n = a.unicode_len();
    if n != b.unicode_len() {
        return false;
    }
    let mut i: usize = 0;
    while i < n
        invariant
            n == a@.len(),
            n == b@.len(),
            0 <= i <= n,
            a@.take(i as int) == b@.take(i as int),
        decreases n - i,
    {
        if a.get_char(i) != b.get_char(i) {
            return false;
        }
        assert(a@.take(i + 1) =~= a@.take(i as int).push(a@[i as int]));
        assert(b@.take(i + 1) =~= b@.take(i as int).push(b@[i as int]));
        i = i + 1;
    }
    assert(a@ =~= a@.take(n as int));
    assert(b@ =~= b@.take(n as int));
    true
}

/// Copies the characters of `s` into a new string.
pub fn to_string(s: &str) -> (r: String)
    ensures
        r@ == s@,
{
    String::from_str(s)
}

/// The pieces of `s` between the occurrences of `c` (`str::split`): one
/// more piece than there are occurrences, empty pieces included.
pub open spec fn split_seq(s: Seq<char>, c: char) -> Seq<Seq<char>>
    decreases s.len(),
{
    if s.len() == 0 {
        seq![Seq::empty()]
    } else {
        let p = split_seq(s.drop_last(), c);
        if s.last() == c {
            p.push(Seq::empty())
        } else {
            p.update(p.len() - 1, p.last().push(s.last()))
        }
    }
}

/// There is always at least one piece.
pub proof fn lemma_split_len(s: Seq<char>, c: char)
    ensures
        split_seq(s, c).len() >= 1,
    decreases s.len(),
{
    if s.len() > 0 {
        lemma_split_len(s.drop_last(), c);
    }
}

/// The characters of a sequence of strings.
pub open spec fn strings_view(v: Seq<String>) -> Seq<Seq<char>> {
    v.map_values(|p: String| p@)
}

/// Splits `s` at each `c`.
pub fn split_char(s: &str, c: char) -> (parts: Vec<String>)
    ensures
        strings_view(parts@) == split_seq(s@, c),
{
    let n = s.unicode_len();
    let mut parts: Vec<String> = Vec::new();
    let mut cur = String::new();
    let mut i: usize = 0;
    assert(s@.take(0) =~= Seq::<char>::empty());
    while i < n
        invariant
            n == s@.len(),
            0 <= i <= n,
            strings_view(parts@).push(cur@) == split_seq(s@.take(i as int), c),
        decreases n - i,
    {
        let ch = s.get_char(i);
        proof {
            assert(s@.take(i + 1).drop_last() =~= s@.take(i as int));
            assert(s@.take(i + 1).last() == ch);
        }
        if ch == c {
            let done = cur;
            parts.push(done);
            cur = String::new();
            assert(strings_view(parts@).push(cur@) =~= split_seq(s@.take(i + 1), c));
        } else {
            push_char(&mut cur, ch);
            assert(strings_view(parts@).push(cur@) =~= split_seq(s@.take(i + 1), c));
        }
        i = i + 1;
    }
    assert(s@.take(n as int) =~= s@);
    parts.push(cur);
    assert(strings_view(parts@) =~= split_seq(s@, c));
    parts
}

/// A decimal digit.
pub open spec fn is_digit(c: char) -> bool {
    '0' <= c <= '9'
}

/// All characters are decimal digits.
pub open spec fn all_digits(s: Seq<char>) -> bool {
    forall|i: int| 0 <= i < s.len() ==> is_digit(#[trigger] s[i])
}

/// The number that the decimal digits `s` stand for.
pub open spec fn dec_number(s: Seq<char>) -> nat
    decreases s.len(),
{
    if s.len() == 0 {
        0
    } else {
        dec_number(s.drop_last()) * 10 + (s.last() as nat - 48) as nat
    }
}

/// A prefix of a string of digits stands for no more than the string.
pub proof fn lemma_dec_prefix(s: Seq<char>, i: int)
    requires
        0 <= i <= s.len(),
        all_digits(s),
    ensures
        dec_number(s.take(i)) <= dec_number(s),
    decreases s.len(),
{
    if i < s.len() {
        assert(s.drop_last().take(i) =~= s.take(i));
        lemma_dec_prefix(s.drop_last(), i);
    } else {
        assert(s.take(i) =~= s);
    }
}

/// What `from_str` gives for an unsigned integer type whose largest value
/// is `max`: an optional `+`, then at least one digit, of a value that
/// fits.
pub open spec fn parse_unsigned(s: Seq<char>, max: nat) -> Option<nat> {
    let digits = if s.len() > 0 && s[0] == '+' {
        s.drop_first()
    } else {
        s
    };
    if digits.len() > 0 && all_digits(digits) && dec_number(digits) <= max {
        Some(dec_number(digits))
    } else {
        None
    }
}

/// What `from_str` gives for a signed integer type of range `min..=max`:
/// an optional sign, then at least one digit, of a value in range.
pub open spec fn parse_signed(s: Seq<char>, min: int, max: int) -> Option<int> {
    let neg = s.len() > 0 && s[0] == '-';
    let digits = if s.len() > 0 && (s[0] == '+' || s[0] == '-') {
        s.drop_first()
    } else {
        s
    };
    let v: int = if neg {
        -dec_number(digits)
    } else {
        dec_number(digits) as int
    };
    if digits.len() > 0 && all_digits(digits) && min <= v <= max {
        Some(v)
    } else {
        None
    }
}

/// The value of the digits `s[from..]` when they are all digits and the
/// value is at most `cap`.
fn digits_value(s: &str, from: usize, cap: u64) -> (r: Option<u64>)
    requires
        from <= s@.len(),
    ensures
        r is Some <==> (all_digits(s@.skip(from as int)) && dec_number(s@.skip(from as int))
            <= cap),
        r matches Some(v) ==> v == dec_number(s@.skip(from as int)),
{
    let n = s.unicode_len();
    let ghost d = s@.skip(from as int);
    let mut acc: u64 = 0;
    let mut i: usize = from;
    assert(d.take(0) =~= Seq::<char>::empty());
    while i < n
        invariant
            n == s@.len(),
            d == s@.skip(from as int),
            from <= i <= n,
            all_digits(d.take(i - from)),
            acc == dec_number(d.take(i - from)),
            acc <= cap,
        decreases n - i,
    {
        let c = s.get_char(i);
        assert(d.take(i - from + 1).drop_last() =~= d.take(i - from));
        assert(d[i - from] == c);
        if c < '0' || c > '9' {
            assert(!is_digit(d[i - from]));
            return None;
        }
        let dv: u64 = (c as u32 - 48) as u64;
        assert(all_digits(d.take(i - from + 1)));
        if dv > cap || acc > (cap - dv) / 10 {
            proof {
                assert(acc * 10 + dv > cap) by (nonlinear_arith)
                    requires
                        dv > cap || acc > (cap - dv) / 10,
                        dv <= cap ==> (cap - dv) / 10 * 10 + 10 > cap - dv,
                        0 <= dv < 10,
                ;
                if all_digits(d) {
                    lemma_dec_prefix(d, i - from + 1);
                }
            }
            return None;
        }
        assert(acc * 10 + dv <= cap) by (nonlinear_arith)
            requires
                acc <= (cap - dv) / 10,
                dv <= cap,
        ;
        acc = acc * 10 + dv;
        i = i + 1;
    }
    assert(d.take(n - from) =~= d);
    Some(acc)
}

/// Parses a `usize` as `str::parse` does.
pub fn parse_usize(s: &str) -> (r: Option<usize>)
    ensures
        r is Some <==> parse_unsigned(s@, usize::MAX as nat) is Some,
        r matches Some(v) ==> v == parse_unsigned(s@, usize::MAX as nat)->0,
{
    assert(s@.skip(0) =~= s@);
    parse_usize_after(s, 0)
}

/// Parses the characters of `s` from index `start` on as a `usize`, as
/// `str::parse` does.
pub fn parse_usize_after(s: &str, start: usize) -> (r: Option<usize>)
    requires
        start <= s@.len(),
    ensures
        r is Some <==> parse_unsigned(s@.skip(start as int), usize::MAX as nat) is Some,
        r matches Some(v) ==> v == parse_unsigned(s@.skip(start as int), usize::MAX as nat)->0,
{
    let ghost t = s@.skip(start as int);
    let n = s.unicode_len();
    let from: usize = if start < n && s.get_char(start) == '+' {
        start + 1
    } else {
        start
    };
    assert(s@.skip(from as int) =~= (if t.len() > 0 && t[0] == '+' {
        t.drop_first()
    } else {
        t
    }));
    if from >= n {
        return None;
    }
    match digits_value(s, from, usize::MAX as u64) {
        Some(v) => Some(v as usize),
        None => None,
    }
}

/// Parses an `i32` as `str::parse` does.
pub fn parse_i32(s: &str) -> (r: Option<i32>)
    ensures
        r is Some <==> parse_signed(s@, i32::MIN as int, i32::MAX as int) is Some,
        r matches Some(v) ==> v == parse_signed(s@, i32::MIN as int, i32::MAX as int)->0,
{
    let n = s.unicode_len();
    let first = if n > 0 {
        s.get_char(0)
    } else {
        ' '
    };
    let neg = n > 0 && first == '-';
    let from: usize = if n > 0 && (first == '+' || first == '-') {
        1
    } else {
        0
    };
    assert(s@.skip(from as int) =~= (if s@.len() > 0 && (s@[0] == '+' || s@[0] == '-') {
        s@.drop_first()
    } else {
        s@
    }));
    if from >= n {
        return None;
    }
    let cap: u64 = if neg {
        0x8000_0000
    } else {
        0x7fff_ffff
    };
    match digits_value(s, from, cap) {
        Some(v) => {
            if neg {
                Some((0 - (v as i64)) as i32)
            } else {
                Some(v as i32)
            }
        },
        None => None,
    }
}

/// The decimal digits of `n`, without leading zeros (`0` for zero).
pub open spec fn decimal(n: nat) -> Seq<char>
    decreases n,
{
    if n < 10 {
        seq![((n + 48) as u32) as char]
    } else {
        decimal(n / 10).push((((n % 10) + 48) as u32) as char)
    }
}

/// The decimal digits of `n`.
pub fn decimal_string(n: u64) -> (s: String)
    ensures
        s@ == decimal(n as nat),
    decreases n,
{
    if n < 10 {
        let mut s = String::new();
        let c = char_of_digit(n as u32);
        push_char(&mut s, c);
        assert(s@ =~= decimal(n as nat));
        s
    } else {
        let mut s = decimal_string(n / 10);
        let c = char_of_digit((n % 10) as u32);
        push_char(&mut s, c);
        s
    }
}

fn char_of_digit(d: u32) -> (c: char)
    requires
        d < 10,
    ensures
        c == ((d + 48) as u32) as char,
{
    match d {
        0 => '0',
        1 => '1',
        2 => '2',
        3 => '3',
        4 => '4',
        5 => '5',
        6 => '6',
        7 => '7',
        8 => '8',
        _ => '9',
    }
}

} // verus!
