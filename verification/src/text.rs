//! Text: building strings, decimal numbers, and splitting on a separator.

use vstd::prelude::*;
use vstd::std_specs::iter::IteratorSpec;

verus! {

broadcast use vstd::string::group_string_axioms;

/// `String::push`: appends one character.
#[verifier::external_body]
fn push_char(s: &mut String, c: char)
    ensures
        final(s)@ == old(s)@.push(c),
{
    s.push(c);
}

/// The characters of a string slice, in order.
pub fn chars_of(s: &str) -> (r: Vec<char>)
    ensures
        r@ == s@,
{
    let mut it = s.chars();
    let mut out: Vec<char> = Vec::new();
    loop
        invariant
            out@ + it.remaining() == s@,
            it.obeys_prophetic_iter_laws(),
            it.decrease() is Some,
        decreases it.decrease()->0,
    {
        let ghost before = it.remaining();
        match it.next() {
            Some(c) => {
                out.push(c);
                assert(out@ + it.remaining() =~= s@) by {
                    assert(before == seq![c] + it.remaining());
                }
            },
            None => {
                assert(out@ =~= s@);
                return out;
            },
        }
    }
}

/// A string holding the given characters.
pub fn string_of(cs: &Vec<char>) -> (r: String)
    ensures
        r@ == cs@,
{
    let mut s = String::new();
    let mut i: usize = 0;
    while i < cs.len()
        invariant
            i <= cs@.len(),
            s@ == cs@.take(i as int),
        decreases cs@.len() - i,
    {
        push_char(&mut s, cs[i]);
        i = i + 1;
        assert(s@ =~= cs@.take(i as int));
    }
    assert(cs@.take(i as int) =~= cs@);
    s
}

/// Appends characters to a string.
pub fn push_chars(s: &mut String, cs: &Vec<char>)
    ensures
        final(s)@ == old(s)@ + cs@,
{
    let ghost start = s@;
    let mut i: usize = 0;
    while i < cs.len()
        invariant
            i <= cs@.len(),
            s@ == start + cs@.take(i as int),
        decreases cs@.len() - i,
    {
        push_char(s, cs[i]);
        i = i + 1;
        assert(s@ =~= start + cs@.take(i as int));
    }
    assert(cs@.take(i as int) =~= cs@);
}

/// Appends the characters of a string slice to a string.
pub fn push_text(s: &mut String, t: &str)
    ensures
        final(s)@ == old(s)@ + t@,
{
    let cs = chars_of(t);
    push_chars(s, &cs);
}

/// The character of a decimal digit.
pub open spec fn digit_char(d: nat) -> char {
    if d == 0 {
        '0'
    } else if d == 1 {
        '1'
    } else if d == 2 {
        '2'
    } else if d == 3 {
        '3'
    } else if d == 4 {
        '4'
    } else if d == 5 {
        '5'
    } else if d == 6 {
        '6'
    } else if d == 7 {
        '7'
    } else if d == 8 {
        '8'
    } else {
        '9'
    }
}

/// Whether a character is an ASCII decimal digit.
pub open spec fn is_digit(c: char) -> bool {
    '0' <= c && c <= '9'
}

/// The value of a decimal digit.
pub open spec fn digit_value(c: char) -> nat {
    (c as int - '0' as int) as nat
}

/// The decimal digits of a number, without leading zeros.
pub open spec fn dec_digits(n: nat) -> Seq<char>
    decreases n,
{
    if n < 10 {
        seq![digit_char(n)]
    } else {
        dec_digits(n / 10).push(digit_char(n % 10))
    }
}

/// Every character is a decimal digit.
pub open spec fn all_digits(s: Seq<char>) -> bool {
    forall|i: int| 0 <= i < s.len() ==> is_digit(#[trigger] s[i])
}

/// The number that decimal digits stand for.
pub open spec fn digits_value(s: Seq<char>) -> nat
    decreases s.len(),
{
    if s.len() == 0 {
        0
    } else {
        digits_value(s.drop_last()) * 10 + digit_value(s.last())
    }
}

/// What parsing a `u64` from text gives: an optional `+`, then one or more
/// decimal digits whose value fits; nothing else is accepted.
pub open spec fn parse_u64_spec(s: Seq<char>) -> Option<u64> {
    let d = if s.len() > 0 && s[0] == '+' {
        s.drop_first()
    } else {
        s
    };
    if d.len() > 0 && all_digits(d) && digits_value(d) <= u64::MAX {
        Some(digits_value(d) as u64)
    } else {
        None
    }
}

fn digit_of(d: u64) -> (c: char)
    requires
        d < 10,
    ensures
        c == digit_char(d as nat),
        is_digit(c),
        digit_value(c) == d,
{
    match d {
        0 => '0',
        1 => '1',
        2 => '2',
        3 => '3',
        4 => '4',
        5 => '5',
        6 => '6',
        7 => '7',
        8 => '8',
        _ => '9',
    }
}

/// The decimal digits of a number.
pub fn decimal_chars(n: u64) -> (r: Vec<char>)
    ensures
        r@ == dec_digits(n as nat),
    decreases n,
{
    if n < 10 {
        let mut v: Vec<char> = Vec::new();
        v.push(digit_of(n));
        assert(v@ =~= dec_digits(n as nat));
        v
    } else {
        let mut v = decimal_chars(n / 10);
        v.push(digit_of(n % 10));
        v
    }
}

/// The decimal form of a number.
pub fn decimal_string(n: u64) -> (r: String)
    ensures
        r@ == dec_digits(n as nat),
{
    string_of(&decimal_chars(n))
}

/// The lowercase hexadecimal digit of a number below sixteen.
pub open spec fn hex_char(d: nat) -> char {
    seq!['0', '1', '2', '3', '4', '5', '6', '7', '8', '9', 'a', 'b', 'c', 'd', 'e', 'f'][d as int]
}

/// The lowercase hexadecimal digits of a number, most significant first,
/// with no leading zeros: `0` for zero.
pub open spec fn hex_digits(n: nat) -> Seq<char>
    decreases n,
{
    if n < 16 {
        seq![hex_char(n)]
    } else {
        hex_digits(n / 16).push(hex_char(n % 16))
    }
}

fn hex_digit_of(d: u64) -> (c: char)
    requires
        d < 16,
    ensures
        c == hex_char(d as nat),
{
    match d {
        0 => '0',
        1 => '1',
        2 => '2',
        3 => '3',
        4 => '4',
        5 => '5',
        6 => '6',
        7 => '7',
        8 => '8',
        9 => '9',
        10 => 'a',
        11 => 'b',
        12 => 'c',
        13 => 'd',
        14 => 'e',
        _ => 'f',
    }
}

fn hex_chars(n: u64) -> (r: Vec<char>)
    ensures
        r@ == hex_digits(n as nat),
    decreases n,
{
    if n < 16 {
        let mut v: Vec<char> = Vec::new();
        v.push(hex_digit_of(n));
        assert(v@ =~= hex_digits(n as nat));
        v
    } else {
        let mut v = hex_chars(n / 16);
        v.push(hex_digit_of(n % 16));
        v
    }
}

/// The lowercase hexadecimal form of a number.
pub fn hex_string(n: u64) -> (r: String)
    ensures
        r@ == hex_digits(n as nat),
{
    string_of(&hex_chars(n))
}

proof fn lemma_digit_char(d: nat)
    requires
        d < 10,
    ensures
        is_digit(digit_char(d)),
        digit_value(digit_char(d)) == d,
{
}

proof fn lemma_digits_value_prefix(s: Seq<char>, j: int)
    requires
        0 <= j <= s.len(),
    ensures
        digits_value(s) >= digits_value(s.take(j)),
    decreases s.len(),
{
    if j < s.len() {
        lemma_digits_value_prefix(s.drop_last(), j);
        assert(s.drop_last().take(j) =~= s.take(j));
    } else {
        assert(s.take(j) =~= s);
    }
}

/// Parses a `u64` from characters: an optional `+`, then decimal digits.
pub fn parse_u64(s: &Vec<char>) -> (r: Option<u64>)
    ensures
        r == parse_u64_spec(s@),
{
    let start: usize = if s.len() > 0 && s[0] == '+' {
        1
    } else {
        0
    };
    let ghost d = if s@.len() > 0 && s@[0] == '+' {
        s@.drop_first()
    } else {
        s@
    };
    assert(d =~= s@.subrange(start as int, s@.len() as int));
    if start >= s.len() {
        return None;
    }
    let mut v: u64 = 0;
    let mut i: usize = start;
    while i < s.len()
        invariant
            start <= i <= s@.len(),
            d == s@.subrange(start as int, s@.len() as int),
            parse_u64_spec(s@) == (if d.len() > 0 && all_digits(d) && digits_value(d) <= u64::MAX {
                Some(digits_value(d) as u64)
            } else {
                None
            }),
            all_digits(d.take(i - start)),
            v == digits_value(d.take(i - start)),
        decreases s@.len() - i,
    {
        let c = s[i];
        assert(d[i - start] == c);
        if !('0' <= c && c <= '9') {
            assert(!all_digits(d));
            return None;
        }
        let x: u64 = if c == '0' {
            0
        } else if c == '1' {
            1
        } else if c == '2' {
            2
        } else if c == '3' {
            3
        } else if c == '4' {
            4
        } else if c == '5' {
            5
        } else if c == '6' {
            6
        } else if c == '7' {
            7
        } else if c == '8' {
            8
        } else {
            9
        };
        assert(x == digit_value(c));
        let ghost k = i - start;
        assert(d.take(k + 1).drop_last() =~= d.take(k));
        assert(digits_value(d.take(k + 1)) == v * 10 + x);
        if v > (u64::MAX - x) / 10 {
            assert(v * 10 + x > u64::MAX) by (nonlinear_arith)
                requires
                    v > (u64::MAX - x) / 10,
                    x <= 9,
            ;
            proof {
                if all_digits(d) {
                    lemma_digits_value_prefix(d, k + 1);
                }
            }
            return None;
        }
        assert(v * 10 + x <= u64::MAX) by (nonlinear_arith)
            requires
                v <= (u64::MAX - x) / 10,
                x <= 9,
        ;
        v = v * 10 + x;
        i = i + 1;
        assert(all_digits(d.take(i - start))) by {
            assert forall|j: int| 0 <= j < i - start implies is_digit(#[trigger] d.take(i - start)[j]) by {
                if j < k {
                    assert(d.take(i - start)[j] == d.take(k)[j]);
                }
            }
        }
    }
    assert(d.take(i - start) =~= d);
    Some(v)
}

/// The digits of a number are digits, and stand for it.
pub proof fn lemma_dec_digits(n: nat)
    ensures
        dec_digits(n).len() > 0,
        all_digits(dec_digits(n)),
        digits_value(dec_digits(n)) == n,
    decreases n,
{
    if n >= 10 {
        lemma_dec_digits(n / 10);
        let s = dec_digits(n);
        assert(s.drop_last() =~= dec_digits(n / 10));
        assert forall|i: int| 0 <= i < s.len() implies is_digit(#[trigger] s[i]) by {
            if i < s.len() - 1 {
                assert(s[i] == dec_digits(n / 10)[i]);
            }
        }
        lemma_digit_char(n % 10);
        assert(s.last() == digit_char(n % 10));
        assert(digits_value(s) == digits_value(dec_digits(n / 10)) * 10 + n % 10);
        assert(n == (n / 10) * 10 + n % 10);
        assert(digits_value(s) == n);
    } else {
        lemma_digit_char(n);
        assert(dec_digits(n).drop_last() =~= Seq::<char>::empty());
        assert(digits_value(Seq::<char>::empty()) == 0);
        assert(digits_value(dec_digits(n)) == n);
    }
}

/// Parsing the decimal form of a number gives the number back.
pub proof fn lemma_parse_decimal(n: u64)
    ensures
        parse_u64_spec(dec_digits(n as nat)) == Some(n),
{
    lemma_dec_digits(n as nat);
    let s = dec_digits(n as nat);
    assert(is_digit(s[0]));
}

/// Whether the separator `##` starts at position `i` of `s`.
pub open spec fn sep_at(s: Seq<char>, i: int) -> bool {
    0 <= i && i + 1 < s.len() && s[i] == '#' && s[i + 1] == '#'
}

/// The first position, from `i` on, where the separator starts.
pub open spec fn find_sep(s: Seq<char>, i: int) -> Option<int>
    decreases s.len() - i,
{
    if i < 0 || i + 1 >= s.len() {
        None
    } else if sep_at(s, i) {
        Some(i)
    } else {
        find_sep(s, i + 1)
    }
}

/// A separator found from `i` on lies at or after `i`.
pub proof fn lemma_find_sep_range(s: Seq<char>, i: int)
    ensures
        find_sep(s, i) matches Some(k) ==> i <= k && sep_at(s, k),
    decreases s.len() - i,
{
    if !(i < 0 || i + 1 >= s.len()) && !sep_at(s, i) {
        lemma_find_sep_range(s, i + 1);
    }
}

/// The pieces of `s` from position `a` on, between occurrences of `##`
/// found from left to right.
pub open spec fn split_from(s: Seq<char>, a: int) -> Seq<Seq<char>>
    decreases s.len() - a,
{
    if a < 0 || a > s.len() {
        Seq::empty()
    } else {
        match find_sep(s, a) {
            None => seq![s.subrange(a, s.len() as int)],
            Some(k) => {
                proof {
                    lemma_find_sep_range(s, a);
                }
                seq![s.subrange(a, k)] + split_from(s, k + 2)
            },
        }
    }
}

/// The pieces of `s` between occurrences of `##`, found from left to right.
pub open spec fn split_sep(s: Seq<char>) -> Seq<Seq<char>> {
    split_from(s, 0)
}

/// The characters of each piece.
pub open spec fn pieces(v: Seq<Vec<char>>) -> Seq<Seq<char>> {
    v.map_values(|p: Vec<char>| p@)
}

/// Splits characters on `##`, from left to right.
pub fn split_on_separator(cs: &Vec<char>) -> (r: Vec<Vec<char>>)
    ensures
        pieces(r@) == split_sep(cs@),
{
    let ghost s = cs@;
    let mut out: Vec<Vec<char>> = Vec::new();
    let mut cur: Vec<char> = Vec::new();
    let mut a: usize = 0;
    let mut i: usize = 0;
    while i < cs.len()
        invariant
            s == cs@,
            a <= i <= s.len(),
            cur@ == s.subrange(a as int, i as int),
            find_sep(s, a as int) == find_sep(s, i as int),
            pieces(out@) + split_from(s, a as int) == split_sep(s),
        decreases s.len() - i,
    {
        if i + 1 < cs.len() && cs[i] == '#' && cs[i + 1] == '#' {
            assert(sep_at(s, i as int));
            assert(find_sep(s, a as int) == Some(i as int));
            let ghost before = out@;
            out.push(cur);
            assert(pieces(out@) =~= pieces(before).push(s.subrange(a as int, i as int)));
            assert(split_from(s, a as int) == seq![s.subrange(a as int, i as int)] + split_from(s, i + 2));
            cur = Vec::new();
            i = i + 2;
            a = i;
            assert(pieces(out@) + split_from(s, a as int) =~= split_sep(s));
            assert(cur@ =~= s.subrange(a as int, i as int));
        } else {
            assert(find_sep(s, i as int) == find_sep(s, i + 1));
            cur.push(cs[i]);
            i = i + 1;
            assert(cur@ =~= s.subrange(a as int, i as int));
        }
    }
    assert(find_sep(s, i as int) is None);
    let ghost before = out@;
    out.push(cur);
    assert(pieces(out@) =~= pieces(before).push(s.subrange(a as int, s.len() as int)));
    assert(pieces(out@) =~= split_sep(s));
    out
}

/// No separator occurs in `w`, and `w` does not end with `#`: followed by
/// `##`, it is read back as one piece.
pub open spec fn clean_piece(w: Seq<char>) -> bool {
    &&& forall|i: int| !sep_at(w, i)
    &&& (w.len() > 0 ==> w.last() != '#')
}

proof fn lemma_find_sep_none(s: Seq<char>, a: int, k: int)
    requires
        0 <= a <= k,
        forall|i: int| a <= i < k ==> !sep_at(s, i),
    ensures
        find_sep(s, a) == find_sep(s, k),
    decreases k - a,
{
    if a < k {
        lemma_find_sep_none(s, a + 1, k);
    }
}

/// A clean piece followed by `##` is split off whole.
pub proof fn lemma_split_piece(s: Seq<char>, a: int, w: Seq<char>)
    requires
        0 <= a,
        a + w.len() + 2 <= s.len(),
        s.subrange(a, a + w.len()) == w,
        s[a + w.len()] == '#',
        s[a + w.len() + 1] == '#',
        clean_piece(w),
    ensures
        split_from(s, a) == seq![w] + split_from(s, a + w.len() + 2),
{
    let k = a + w.len();
    assert forall|i: int| a <= i < k implies !sep_at(s, i) by {
        if i + 1 < k {
            assert(s[i] == w[i - a] && s[i + 1] == w[i + 1 - a]);
            assert(!sep_at(w, i - a));
        } else {
            assert(s[i] == w.last());
        }
    }
    lemma_find_sep_none(s, a, k);
    assert(sep_at(s, k));
}

/// A last piece with no separator in it stays whole.
pub proof fn lemma_split_last(s: Seq<char>, a: int)
    requires
        0 <= a <= s.len(),
        forall|i: int| !sep_at(s.subrange(a, s.len() as int), i),
    ensures
        split_from(s, a) == seq![s.subrange(a, s.len() as int)],
{
    let w = s.subrange(a, s.len() as int);
    assert forall|i: int| a <= i < s.len() implies !sep_at(s, i) by {
        if i + 1 < s.len() {
            assert(s[i] == w[i - a] && s[i + 1] == w[i + 1 - a]);
            assert(!sep_at(w, i - a));
        }
    }
    lemma_find_sep_none(s, a, s.len() as int);
}

/// Digits hold no `#`.
pub proof fn lemma_digits_clean(w: Seq<char>)
    requires
        all_digits(w),
    ensures
        clean_piece(w),
        forall|i: int| !sep_at(w, i),
{
    assert forall|i: int| !sep_at(w, i) by {
        if 0 <= i < w.len() {
            assert(is_digit(w[i]));
        }
    }
    if w.len() > 0 {
        assert(is_digit(w[w.len() - 1]));
    }
}

/// Six pieces joined by `##`, the first five clean and the last with no
/// `##` in it, split back into the six pieces.
pub proof fn lemma_split_six(
    w0: Seq<char>,
    w1: Seq<char>,
    w2: Seq<char>,
    w3: Seq<char>,
    w4: Seq<char>,
    w5: Seq<char>,
)
    requires
        clean_piece(w0),
        clean_piece(w1),
        clean_piece(w2),
        clean_piece(w3),
        clean_piece(w4),
        forall|i: int| !sep_at(w5, i),
    ensures
        ({
            let sep = seq!['#', '#'];
            split_sep(w0 + sep + w1 + sep + w2 + sep + w3 + sep + w4 + sep + w5) == seq![w0, w1, w2, w3, w4, w5]
        }),
{
    let sep = seq!['#', '#'];
    let s = w0 + sep + w1 + sep + w2 + sep + w3 + sep + w4 + sep + w5;
    let a1: int = w0.len() as int + 2;
    let a2: int = a1 + w1.len() + 2;
    let a3: int = a2 + w2.len() + 2;
    let a4: int = a3 + w3.len() + 2;
    let a5: int = a4 + w4.len() + 2;
    assert(s.subrange(0, w0.len() as int) =~= w0);
    lemma_split_piece(s, 0, w0);
    assert(s.subrange(a1, a1 + w1.len()) =~= w1);
    lemma_split_piece(s, a1, w1);
    assert(s.subrange(a2, a2 + w2.len()) =~= w2);
    lemma_split_piece(s, a2, w2);
    assert(s.subrange(a3, a3 + w3.len()) =~= w3);
    lemma_split_piece(s, a3, w3);
    assert(s.subrange(a4, a4 + w4.len()) =~= w4);
    lemma_split_piece(s, a4, w4);
    assert(s.subrange(a5, s.len() as int) =~= w5);
    lemma_split_last(s, a5);
    assert(split_sep(s) =~= seq![w0, w1, w2, w3, w4, w5]);
}

} // verus!
