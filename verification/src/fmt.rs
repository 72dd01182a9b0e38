//! Plain-text renderings used by the payload: decimal numbers, JSON
//! string escaping, and the JSON object text of a frequency tally.
use vstd::prelude::*;

verus! {

/// The character for the decimal digit `d`.
pub open spec fn digit_char(d: nat) -> char {
    if d == 0 {
        '0'
    } else if d == 1 {
        '1'
    } else if d == 2 {
        '2'
    } else if d == 3 {
        '3'
    } else if d == 4 {
        '4'
    } else if d == 5 {
        '5'
    } else if d == 6 {
        '6'
    } else if d == 7 {
        '7'
    } else if d == 8 {
        '8'
    } else {
        '9'
    }
}

/// The decimal digit a character stands for, if any.
pub open spec fn digit_of(c: char) -> Option<nat> {
    if c == '0' {
        Some(0nat)
    } else if c == '1' {
        Some(1nat)
    } else if c == '2' {
        Some(2nat)
    } else if c == '3' {
        Some(3nat)
    } else if c == '4' {
        Some(4nat)
    } else if c == '5' {
        Some(5nat)
    } else if c == '6' {
        Some(6nat)
    } else if c == '7' {
        Some(7nat)
    } else if c == '8' {
        Some(8nat)
    } else if c == '9' {
        Some(9nat)
    } else {
        None
    }
}

/// The decimal rendering of `n`, most significant digit first.
pub open spec fn dec_of(n: nat) -> Seq<char>
    decreases n,
{
    if n < 10 {
        seq![digit_char(n)]
    } else {
        dec_of(n / 10).push(digit_char(n % 10))
    }
}

/// The value of a digit string read left to right on top of an already
/// accumulated value, or `None` on a non-digit.
pub open spec fn dec_parse_from(s: Seq<char>, acc: nat) -> Option<nat>
    decreases s.len(),
{
    if s.len() == 0 {
        Some(acc)
    } else {
        match digit_of(s[0]) {
            Some(d) => dec_parse_from(s.drop_first(), acc * 10 + d),
            None => None,
        }
    }
}

/// The number a decimal string stands for: `None` when the string is
/// empty or holds a non-digit.
pub open spec fn dec_parse(s: Seq<char>) -> Option<nat> {
    if s.len() == 0 {
        None
    } else {
        dec_parse_from(s, 0)
    }
}

proof fn lemma_dec_parse_append(s1: Seq<char>, s2: Seq<char>, acc: nat)
    requires
        dec_parse_from(s1, acc) is Some,
    ensures
        dec_parse_from(s1 + s2, acc) == dec_parse_from(s2, dec_parse_from(s1, acc)->Some_0),
    decreases s1.len(),
{
    if s1.len() == 0 {
        assert(s1 + s2 =~= s2);
    } else {
        assert((s1 + s2)[0] == s1[0]);
        assert((s1 + s2).drop_first() =~= s1.drop_first() + s2);
        lemma_dec_parse_append(s1.drop_first(), s2, acc * 10 + digit_of(s1[0])->Some_0);
    }
}

/// Parsing a decimal rendering on top of an accumulator recovers the
/// accumulated value.
proof fn lemma_dec_parse_of(n: nat, acc: nat)
    ensures
        dec_parse_from(dec_of(n), acc) == Some((acc * vstd::arithmetic::power::pow(
            10,
            dec_of(n).len(),
        ) + n) as nat),
    decreases n,
{
    vstd::arithmetic::power::lemma_pow_positive(10, dec_of(n).len());
    vstd::arithmetic::power::lemma_pow0(10);
    vstd::arithmetic::power::lemma_pow1(10);
    if n < 10 {
        assert(dec_of(n) == seq![digit_char(n)]);
        assert(digit_of(digit_char(n)) == Some(n));
        assert(dec_of(n).drop_first() =~= Seq::<char>::empty());
        assert(dec_parse_from(Seq::<char>::empty(), (acc * 10 + n) as nat) == Some(
            (acc * 10 + n) as nat,
        ));
        assert(dec_parse_from(dec_of(n), acc) == Some((acc * 10 + n) as nat));
    } else {
        let hi = dec_of(n / 10);
        let lo = digit_char(n % 10);
        assert(dec_of(n) =~= hi + seq![lo]);
        lemma_dec_parse_of(n / 10, acc);
        lemma_dec_parse_append(hi, seq![lo], acc);
        let p = vstd::arithmetic::power::pow(10, hi.len());
        vstd::arithmetic::power::lemma_pow_positive(10, hi.len());
        assert(acc * p >= 0) by (nonlinear_arith)
            requires
                acc >= 0 && p > 0,
        ;
        let v = acc * p + n / 10;
        let v2 = (v * 10 + n % 10) as nat;
        assert(v >= 0);
        assert(digit_of(lo) == Some(n % 10));
        assert(seq![lo].drop_first() =~= Seq::<char>::empty());
        assert(dec_parse_from(Seq::<char>::empty(), v2) == Some(v2));
        assert(dec_parse_from(seq![lo], v as nat) == Some(v2));
        assert(vstd::arithmetic::power::pow(10, hi.len() + 1) == 10 * p) by {
            vstd::arithmetic::power::lemma_pow_adds(10, hi.len(), 1);
        }
        assert((acc * p) * 10 == acc * (10 * p)) by (nonlinear_arith);
        assert(v * 10 == acc * (10 * p) + (n / 10) * 10) by (nonlinear_arith)
            requires
                v == acc * p + n / 10,
        ;
        vstd::arithmetic::div_mod::lemma_fundamental_div_mod(n as int, 10);
        let pp = vstd::arithmetic::power::pow(10, dec_of(n).len());
        assert(dec_of(n).len() == hi.len() + 1);
        assert(pp == 10 * p);
        assert(v * 10 + n % 10 == acc * pp + n);
        assert(v2 == (acc * pp + n) as nat);
        assert(dec_parse_from(dec_of(n), acc) == Some(v2));
    }
}

/// Law: reading a decimal rendering back yields the rendered number.
pub proof fn lemma_dec_round_trip(n: nat)
    ensures
        dec_parse(dec_of(n)) == Some(n),
{
    lemma_dec_parse_of(n, 0);
    assert(dec_of(n).len() > 0);
}

/// Decimal renderings of distinct numbers differ.
pub proof fn lemma_dec_of_injective(a: nat, b: nat)
    requires
        dec_of(a) == dec_of(b),
    ensures
        a == b,
{
    lemma_dec_round_trip(a);
    lemma_dec_round_trip(b);
}

/// Render `n` in decimal.
pub fn u64_to_dec(n: u64) -> (r: String)
    ensures
        r@ == dec_of(n as nat),
    decreases n,
{
    let d: u8 = (n % 10) as u8;
    let c: char = digit_to_char(d);
    if n < 10 {
        let mut s = String::new();
        crate::strutil::push_char(&mut s, c);
        proof {
            assert(s@ =~= seq![digit_char(n as nat)]);
        }
        s
    } else {
        let mut s = u64_to_dec(n / 10);
        crate::strutil::push_char(&mut s, c);
        s
    }
}

/// The character for the decimal digit `d`.
fn digit_to_char(d: u8) -> (c: char)
    requires
        d < 10,
    ensures
        c == digit_char(d as nat),
        digit_of(c) == Some(d as nat),
{
    if d == 0 {
        '0'
    } else if d == 1 {
        '1'
    } else if d == 2 {
        '2'
    } else if d == 3 {
        '3'
    } else if d == 4 {
        '4'
    } else if d == 5 {
        '5'
    } else if d == 6 {
        '6'
    } else if d == 7 {
        '7'
    } else if d == 8 {
        '8'
    } else {
        '9'
    }
}

/// The decimal digit `c` stands for, if any.
fn char_to_digit(c: char) -> (r: Option<u8>)
    ensures
        match r {
            Some(d) => digit_of(c) == Some(d as nat) && d < 10,
            None => digit_of(c) is None,
        },
{
    if c == '0' {
        Some(0)
    } else if c == '1' {
        Some(1)
    } else if c == '2' {
        Some(2)
    } else if c == '3' {
        Some(3)
    } else if c == '4' {
        Some(4)
    } else if c == '5' {
        Some(5)
    } else if c == '6' {
        Some(6)
    } else if c == '7' {
        Some(7)
    } else if c == '8' {
        Some(8)
    } else if c == '9' {
        Some(9)
    } else {
        None
    }
}

/// Read a decimal string as a number: `None` when the string is empty,
/// holds a non-digit, or names a value beyond `u64`.
pub fn dec_to_u64(s: &str) -> (r: Option<u64>)
    ensures
        match r {
            Some(v) => dec_parse(s@) == Some(v as nat),
            None => dec_parse(s@) is None || (dec_parse(s@) matches Some(v0) && v0 > u64::MAX),
        },
{
    let n: usize = s.unicode_len();
    if n == 0 {
        return None;
    }
    let mut acc: u64 = 0;
    let mut i: usize = 0;
    proof {
        assert(s@.skip(0) =~= s@);
    }
    while i < n
        invariant
            n == s@.len(),
            0 < n,
            i <= n,
            dec_parse_from(s@, 0) == dec_parse_from(s@.skip(i as int), acc as nat),
        decreases n - i,
    {
        let c = s.get_char(i);
        let ghost rest = s@.skip(i as int);
        proof {
            assert(rest[0] == s@[i as int]);
            assert(rest.drop_first() =~= s@.skip(i + 1));
        }
        match char_to_digit(c) {
            Some(d) => {
                if acc > (u64::MAX - d as u64) / 10 {
                    // the value no longer fits in 64 bits
                    proof {
                        lemma_dec_parse_mono(s@.skip(i + 1), acc as nat * 10 + d as nat);
                    }
                    return None;
                }
                acc = acc * 10 + d as u64;
            },
            None => {
                return None;
            },
        }
        i = i + 1;
    }
    proof {
        assert(s@.skip(n as int) =~= Seq::<char>::empty());
    }
    Some(acc)
}

/// The character for the hexadecimal digit `d`.
pub open spec fn hex_digit(d: nat) -> char {
    if d < 10 {
        digit_char(d)
    } else if d == 10 {
        'a'
    } else if d == 11 {
        'b'
    } else if d == 12 {
        'c'
    } else if d == 13 {
        'd'
    } else if d == 14 {
        'e'
    } else {
        'f'
    }
}

/// The JSON string-escape of one character: quotes and backslashes get a
/// backslash, control characters become a `\u00..` sequence, everything
/// else stands as itself.
pub open spec fn escape_char(c: char) -> Seq<char> {
    if c == '"' {
        seq!['\\', '"']
    } else if c == '\\' {
        seq!['\\', '\\']
    } else if (c as u32) < 32 {
        seq!['\\', 'u', '0', '0', hex_digit((c as u32 / 16) as nat), hex_digit(
            (c as u32 % 16) as nat,
        )]
    } else {
        seq![c]
    }
}

/// The JSON string-escape of a text.
pub open spec fn escape(s: Seq<char>) -> Seq<char>
    decreases s.len(),
{
    if s.len() == 0 {
        Seq::empty()
    } else {
        escape_char(s[0]) + escape(s.drop_first())
    }
}

/// The JSON text of one tally entry: the escaped word in quotes, a
/// colon, and the frequency in decimal.
pub open spec fn entry_json(w: Seq<char>, c: nat) -> Seq<char> {
    seq!['"'] + escape(w) + seq!['"', ':'] + dec_of(c)
}

/// The comma-separated JSON members of a tally, in tally order.
pub open spec fn entries_json(m: Seq<(Seq<char>, nat)>) -> Seq<char>
    decreases m.len(),
{
    if m.len() == 0 {
        Seq::empty()
    } else if m.len() == 1 {
        entry_json(m[0].0, m[0].1)
    } else {
        entries_json(m.drop_last()) + seq![','] + entry_json(m.last().0, m.last().1)
    }
}

/// The JSON object text of a tally, entries in tally order.
pub open spec fn counts_json(m: Seq<(Seq<char>, nat)>) -> Seq<char> {
    seq!['{'] + entries_json(m) + seq!['}']
}

/// The character for the hexadecimal digit `d`.
fn hex_to_char(d: u8) -> (c: char)
    requires
        d < 16,
    ensures
        c == hex_digit(d as nat),
{
    if d < 10 {
        digit_to_char(d)
    } else if d == 10 {
        'a'
    } else if d == 11 {
        'b'
    } else if d == 12 {
        'c'
    } else if d == 13 {
        'd'
    } else if d == 14 {
        'e'
    } else {
        'f'
    }
}

/// Append the JSON string-escape of `w` to `out`.
pub fn push_escaped(out: &mut String, w: &str)
    ensures
        final(out)@ == old(out)@ + escape(w@),
{
    let n: usize = w.unicode_len();
    let mut i: usize = 0;
    proof {
        assert(old(out)@ + escape(w@.take(0)) =~= old(out)@);
    }
    while i < n
        invariant
            n == w@.len(),
            i <= n,
            out@ == old(out)@ + escape(w@.take(i as int)),
        decreases n - i,
    {
        let c = w.get_char(i);
        let u: u32 = c as u32;
        if c == '"' {
            crate::strutil::push_char(out, '\\');
            crate::strutil::push_char(out, '"');
        } else if c == '\\' {
            crate::strutil::push_char(out, '\\');
            crate::strutil::push_char(out, '\\');
        } else if u < 32 {
            crate::strutil::push_char(out, '\\');
            crate::strutil::push_char(out, 'u');
            crate::strutil::push_char(out, '0');
            crate::strutil::push_char(out, '0');
            crate::strutil::push_char(out, hex_to_char((u / 16) as u8));
            crate::strutil::push_char(out, hex_to_char((u % 16) as u8));
        } else {
            crate::strutil::push_char(out, c);
        }
        proof {
            lemma_escape_snoc(w@, i as int);
            assert(out@ =~= old(out)@ + escape(w@.take(i + 1)));
        }
        i = i + 1;
    }
    proof {
        assert(w@.take(n as int) =~= w@);
    }
}

/// Escaping one more character appends its escape.
proof fn lemma_escape_snoc(s: Seq<char>, i: int)
    requires
        0 <= i < s.len(),
    ensures
        escape(s.take(i + 1)) == escape(s.take(i)) + escape_char(s[i]),
    decreases i,
{
    if i == 0 {
        assert(s.take(1) =~= seq![s[0]]);
        assert(s.take(1).drop_first() =~= Seq::<char>::empty());
        assert(escape(Seq::<char>::empty()) == Seq::<char>::empty());
        assert(escape_char(s[0]) + Seq::<char>::empty() =~= escape_char(s[0]));
        assert(escape(s.take(1)) =~= escape_char(s[0]));
        assert(s.take(0) =~= Seq::<char>::empty());
        assert(escape(s.take(0)) + escape_char(s[0]) =~= escape_char(s[0]));
    } else {
        lemma_escape_snoc(s.drop_first(), i - 1);
        assert(s.take(i + 1).drop_first() =~= s.drop_first().take(i));
        assert(s.take(i).drop_first() =~= s.drop_first().take(i - 1));
        assert(escape(s.take(i + 1)) == escape_char(s[0]) + escape(s.drop_first().take(i)));
        assert(escape(s.take(i)) == escape_char(s[0]) + escape(s.drop_first().take(i - 1)));
        assert(escape_char(s[0]) + (escape(s.drop_first().take(i - 1)) + escape_char(s[i]))
            =~= (escape_char(s[0]) + escape(s.drop_first().take(i - 1))) + escape_char(s[i]));
        assert(s.drop_first()[i - 1] == s[i]);
    }
}

/// A parsed digit string is at least its accumulator seed.
proof fn lemma_dec_parse_mono(s: Seq<char>, acc: nat)
    ensures
        dec_parse_from(s, acc) matches Some(v) ==> v >= acc,
    decreases s.len(),
{
    if s.len() > 0 && digit_of(s[0]) is Some {
        lemma_dec_parse_mono(s.drop_first(), acc * 10 + digit_of(s[0])->Some_0);
        assert(acc * 10 >= acc) by (nonlinear_arith)
            requires
                acc >= 0,
        ;
    }
}

} // verus!
