//! Verified text building: decimal and hexadecimal digit strings, the
//! decimal form of a fixed-point value, and the character-level title
//! operations (whitespace trimming, path-separator replacement).

use vstd::prelude::*;

verus! {

/// The decimal digit character for `d` in `0 ..= 9`.
pub open spec fn digit_char(d: int) -> char {
    if d == 0 { '0' }
    else if d == 1 { '1' }
    else if d == 2 { '2' }
    else if d == 3 { '3' }
    else if d == 4 { '4' }
    else if d == 5 { '5' }
    else if d == 6 { '6' }
    else if d == 7 { '7' }
    else if d == 8 { '8' }
    else { '9' }
}

/// The lowercase hexadecimal digit character for `d` in `0 ..= 15`.
pub open spec fn hex_char(d: int) -> char {
    if d < 10 { digit_char(d) }
    else if d == 10 { 'a' }
    else if d == 11 { 'b' }
    else if d == 12 { 'c' }
    else if d == 13 { 'd' }
    else if d == 14 { 'e' }
    else { 'f' }
}

/// Decimal digits of a non-negative integer, most significant first, with
/// no leading zero except for the value 0 itself.
pub open spec fn dec_seq(n: int) -> Seq<char>
    decreases n,
{
    if n < 10 {
        seq![digit_char(n)]
    } else {
        dec_seq(n / 10).push(digit_char(n % 10))
    }
}

/// Lowercase hexadecimal digits of a non-negative integer, most significant
/// first, with no leading zero except for the value 0 itself.
pub open spec fn hex_seq(n: int) -> Seq<char>
    decreases n,
{
    if n < 16 {
        seq![hex_char(n)]
    } else {
        hex_seq(n / 16).push(hex_char(n % 16))
    }
}

/// The fractional part `f` (`1 ..= 999` milli) printed to three decimal
/// places with trailing zeros dropped.
pub open spec fn frac_seq(f: int) -> Seq<char> {
    let d1 = f / 100;
    let d2 = (f / 10) % 10;
    let d3 = f % 10;
    if d3 != 0 {
        seq![digit_char(d1), digit_char(d2), digit_char(d3)]
    } else if d2 != 0 {
        seq![digit_char(d1), digit_char(d2)]
    } else {
        seq![digit_char(d1)]
    }
}

/// Decimal form of a non-negative fixed-point magnitude (milli): the whole
/// part, then a point and the non-zero fraction if there is one.
pub open spec fn fmt_fx_mag(m: int) -> Seq<char> {
    if m % 1000 == 0 {
        dec_seq(m / 1000)
    } else {
        dec_seq(m / 1000) + seq!['.'] + frac_seq(m % 1000)
    }
}

/// Decimal form of a fixed-point value (milli), with a leading minus sign
/// for negative values.
pub open spec fn fmt_fx(v: int) -> Seq<char> {
    if v < 0 {
        seq!['-'] + fmt_fx_mag(-v)
    } else {
        fmt_fx_mag(v)
    }
}

/// Appends the decimal digit character for `d`.
fn push_digit(s: &mut String, d: u128)
    requires
        d < 10,
    ensures
        final(s)@ == old(s)@.push(digit_char(d as int)),
{
    match d {
        0 => s.push('0'),
        1 => s.push('1'),
        2 => s.push('2'),
        3 => s.push('3'),
        4 => s.push('4'),
        5 => s.push('5'),
        6 => s.push('6'),
        7 => s.push('7'),
        8 => s.push('8'),
        _ => s.push('9'),
    }
}

/// Appends the lowercase hexadecimal digit character for `d`.
fn push_hex_digit(s: &mut String, d: u32)
    requires
        d < 16,
    ensures
        final(s)@ == old(s)@.push(hex_char(d as int)),
{
    match d {
        0 => s.push('0'),
        1 => s.push('1'),
        2 => s.push('2'),
        3 => s.push('3'),
        4 => s.push('4'),
        5 => s.push('5'),
        6 => s.push('6'),
        7 => s.push('7'),
        8 => s.push('8'),
        9 => s.push('9'),
        10 => s.push('a'),
        11 => s.push('b'),
        12 => s.push('c'),
        13 => s.push('d'),
        14 => s.push('e'),
        _ => s.push('f'),
    }
}

/// Appends the decimal digit character for `d` to a character vector.
fn push_digit_chars(v: &mut Vec<char>, d: u128)
    requires
        d < 10,
    ensures
        final(v)@ == old(v)@.push(digit_char(d as int)),
{
    match d {
        0 => v.push('0'),
        1 => v.push('1'),
        2 => v.push('2'),
        3 => v.push('3'),
        4 => v.push('4'),
        5 => v.push('5'),
        6 => v.push('6'),
        7 => v.push('7'),
        8 => v.push('8'),
        _ => v.push('9'),
    }
}

/// Appends the decimal digits of `n` to a character vector.
pub fn push_dec_chars(v: &mut Vec<char>, n: u128)
    ensures
        final(v)@ == old(v)@ + dec_seq(n as int),
    decreases n,
{
    if n < 10 {
        push_digit_chars(v, n);
        proof {
            assert(v@ =~= old(v)@ + dec_seq(n as int));
        }
    } else {
        push_dec_chars(v, n / 10);
        push_digit_chars(v, n % 10);
        proof {
            assert(v@ =~= old(v)@ + dec_seq(n as int));
        }
    }
}

/// Appends the decimal digits of `n`.
pub fn push_dec(s: &mut String, n: u128)
    ensures
        final(s)@ == old(s)@ + dec_seq(n as int),
    decreases n,
{
    if n < 10 {
        push_digit(s, n);
        proof {
            assert(s@ =~= old(s)@ + dec_seq(n as int));
        }
    } else {
        push_dec(s, n / 10);
        push_digit(s, n % 10);
        proof {
            assert(s@ =~= old(s)@ + dec_seq(n as int));
        }
    }
}

/// Appends the lowercase hexadecimal digits of `n`.
pub fn push_hex(s: &mut String, n: u32)
    ensures
        final(s)@ == old(s)@ + hex_seq(n as int),
    decreases n,
{
    if n < 16 {
        push_hex_digit(s, n);
        proof {
            assert(s@ =~= old(s)@ + hex_seq(n as int));
        }
    } else {
        push_hex(s, n / 16);
        push_hex_digit(s, n % 16);
        proof {
            assert(s@ =~= old(s)@ + hex_seq(n as int));
        }
    }
}

/// Bound on the values the fixed-point printer accepts; far above anything
/// the coordinate pipeline can produce.
pub const FMT_LIMIT: i128 = 1_000_000_000_000_000_000_000_000_000_000_000_000;

/// Appends the decimal form of the fixed-point value `v` (milli).
pub fn push_fx(s: &mut String, v: i128)
    requires
        -FMT_LIMIT <= v <= FMT_LIMIT,
    ensures
        final(s)@ == old(s)@ + fmt_fx(v as int),
{
    let m: u128 = if v < 0 {
        s.push('-');
        (-v) as u128
    } else {
        v as u128
    };
    let whole: u128 = m / 1000;
    let frac: u128 = m % 1000;
    push_dec(s, whole);
    if frac != 0 {
        s.push('.');
        let d1: u128 = frac / 100;
        let d2: u128 = (frac / 10) % 10;
        let d3: u128 = frac % 10;
        push_digit(s, d1);
        if d3 != 0 {
            push_digit(s, d2);
            push_digit(s, d3);
        } else if d2 != 0 {
            push_digit(s, d2);
        }
    }
    proof {
        assert(s@ =~= old(s)@ + fmt_fx(v as int));
    }
}

/// Appends every character of `v`.
pub fn push_chars(s: &mut String, v: &Vec<char>)
    ensures
        final(s)@ == old(s)@ + v@,
{
    let mut i: usize = 0;
    while i < v.len()
        invariant
            i <= v.len(),
            s@ == old(s)@ + v@.subrange(0, i as int),
        decreases v.len() - i,
    {
        s.push(v[i]);
        i = i + 1;
        proof {
            assert(s@ =~= old(s)@ + v@.subrange(0, i as int));
        }
    }
    proof {
        assert(v@.subrange(0, v@.len() as int) =~= v@);
    }
}

/// The whitespace characters that title trimming removes.
pub open spec fn is_space_char(c: char) -> bool {
    c == ' ' || c == '\t' || c == '\n' || c == '\r'
}

/// `s` with leading whitespace removed.
pub open spec fn trim_front(s: Seq<char>) -> Seq<char>
    decreases s.len(),
{
    if s.len() > 0 && is_space_char(s[0]) {
        trim_front(s.drop_first())
    } else {
        s
    }
}

/// `s` with trailing whitespace removed.
pub open spec fn trim_back(s: Seq<char>) -> Seq<char>
    decreases s.len(),
{
    if s.len() > 0 && is_space_char(s.last()) {
        trim_back(s.drop_last())
    } else {
        s
    }
}

/// `s` with leading and trailing whitespace removed.
pub open spec fn trim_seq(s: Seq<char>) -> Seq<char> {
    trim_back(trim_front(s))
}

/// `s` with every path separator replaced by an underscore.
pub open spec fn replace_slash(s: Seq<char>) -> Seq<char> {
    Seq::new(s.len(), |i: int| if s[i] == '/' { '_' } else { s[i] })
}

/// The file-name form of a page title: trimmed, separators replaced.
pub open spec fn page_name_seq(title: Seq<char>) -> Seq<char> {
    replace_slash(trim_seq(title))
}

fn is_space(c: char) -> (r: bool)
    ensures
        r == is_space_char(c),
{
    c == ' ' || c == '\t' || c == '\n' || c == '\r'
}

/// Computes the file-name form of a page title: whitespace trimmed from both
/// ends, then every path separator replaced by an underscore.
pub fn page_name_chars(title: &Vec<char>) -> (r: Vec<char>)
    ensures
        r@ == page_name_seq(title@),
{
    let len = title.len();
    proof {
        assert(title@.subrange(0, len as int) =~= title@);
    }
    let mut start: usize = 0;
    while start < len && is_space(title[start])
        invariant
            start <= len,
            len == title@.len(),
            trim_front(title@) == trim_front(title@.subrange(start as int, len as int)),
        decreases len - start,
    {
        proof {
            assert(title@.subrange(start as int, len as int).drop_first() =~= title@.subrange(
                start as int + 1,
                len as int,
            ));
        }
        start = start + 1;
    }
    proof {
        let sub = title@.subrange(start as int, len as int);
        if sub.len() > 0 {
            assert(sub[0] == title@[start as int]);
        }
        assert(trim_front(title@) == sub);
    }
    let mut end: usize = len;
    while end > start && is_space(title[end - 1])
        invariant
            start <= end <= len,
            len == title@.len(),
            trim_front(title@) == title@.subrange(start as int, len as int),
            trim_seq(title@) == trim_back(title@.subrange(start as int, end as int)),
        decreases end,
    {
        proof {
            let sub = title@.subrange(start as int, end as int);
            assert(sub.last() == title@[end as int - 1]);
            assert(sub.drop_last() =~= title@.subrange(start as int, end as int - 1));
        }
        end = end - 1;
    }
    proof {
        let sub = title@.subrange(start as int, end as int);
        if sub.len() > 0 {
            assert(sub.last() == title@[end as int - 1]);
        }
        assert(trim_seq(title@) == sub);
    }
    let mut r: Vec<char> = Vec::new();
    let mut i: usize = start;
    while i < end
        invariant
            start <= i <= end <= len,
            len == title@.len(),
            trim_seq(title@) == title@.subrange(start as int, end as int),
            r@ == replace_slash(title@.subrange(start as int, i as int)),
        decreases end - i,
    {
        let c = title[i];
        if c == '/' {
            r.push('_');
        } else {
            r.push(c);
        }
        i = i + 1;
        proof {
            assert(r@ =~= replace_slash(title@.subrange(start as int, i as int)));
        }
    }
    proof {
        assert(r@ =~= page_name_seq(title@));
    }
    r
}

} // verus!
