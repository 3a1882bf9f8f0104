//! Text handling shared by the parsers: characters of a string, white space,
//! fields of a line, lines of a score, and unsigned decimal numbers.

use vstd::prelude::*;
use vstd::std_specs::iter::IteratorSpec;

verus! {

/// `String::push` of the standard library appends one character to the string
/// and leaves what was there in place.
pub assume_specification[ String::push ](s: &mut String, ch: char)
    ensures
        final(s)@ == old(s)@.push(ch),
;

/// The characters of `s`, in order.
pub fn chars_of(s: &str) -> (v: Vec<char>)
    ensures
        v@ == s@,
{
    let mut v: Vec<char> = Vec::new();
    for c in it: s.chars()
        invariant
            v@ == it.seq().take(it.index() as int),
            it.seq() == s@,
    {
        v.push(c);
    }
    v
}

/// A string made of the characters of `v`, in order.
pub fn string_of(v: &Vec<char>) -> (s: String)
    ensures
        s@ == v@,
{
    let mut s = String::new();
    let mut i: usize = 0;
    while i < v.len()
        invariant
            i <= v.len(),
            s@ == v@.take(i as int),
        decreases v.len() - i,
    {
        s.push(v[i]);
        i += 1;
    }
    s
}

/// A copy of the characters of `v` from position `lo` up to, not including, `hi`.
pub fn slice_of(v: &Vec<char>, lo: usize, hi: usize) -> (r: Vec<char>)
    requires
        lo <= hi <= v.len(),
    ensures
        r@ == v@.subrange(lo as int, hi as int),
{
    let mut r: Vec<char> = Vec::new();
    let mut i: usize = lo;
    while i < hi
        invariant
            lo <= i <= hi <= v.len(),
            r@ == v@.subrange(lo as int, i as int),
        decreases hi - i,
    {
        r.push(v[i]);
        i += 1;
    }
    r
}

/// Whether `token` spells exactly `word`.
pub fn is_word(token: &Vec<char>, word: &str) -> (b: bool)
    ensures
        b == (token@ == word@),
{
    let w = chars_of(word);
    if w.len() != token.len() {
        return false;
    }
    let mut i: usize = 0;
    while i < w.len()
        invariant
            i <= w.len(),
            w.len() == token.len(),
            w@ == word@,
            w@.take(i as int) == token@.take(i as int),
        decreases w.len() - i,
    {
        if w[i] != token[i] {
            return false;
        }
        assert(w@.take(i + 1) == w@.take(i as int).push(w@[i as int]));
        assert(token@.take(i + 1) == token@.take(i as int).push(token@[i as int]));
        i += 1;
    }
    assert(w@ == w@.take(w.len() as int));
    assert(token@ == token@.take(token.len() as int));
    true
}

/// Whether `line` begins with the characters of `prefix`.
pub fn starts_with(line: &Vec<char>, prefix: &str) -> (b: bool)
    ensures
        b == prefix@.is_prefix_of(line@),
{
    let p = chars_of(prefix);
    if p.len() > line.len() {
        return false;
    }
    let mut i: usize = 0;
    while i < p.len()
        invariant
            i <= p.len() <= line.len(),
            p@ == prefix@,
            p@.take(i as int) == line@.take(i as int),
        decreases p.len() - i,
    {
        if p[i] != line[i] {
            assert(p@[i as int] != line@.subrange(0, p.len() as int)[i as int]);
            return false;
        }
        assert(p@.take(i + 1) == p@.take(i as int).push(p@[i as int]));
        assert(line@.take(i + 1) == line@.take(i as int).push(line@[i as int]));
        i += 1;
    }
    assert(p@ == p@.take(p.len() as int));
    true
}

/// White space as Unicode defines it (the property `White_Space`).
pub open spec fn is_space(c: char) -> bool {
    let u = c as u32;
    ||| 0x09 <= u <= 0x0D
    ||| u == 0x20
    ||| u == 0x85
    ||| u == 0xA0
    ||| u == 0x1680
    ||| 0x2000 <= u <= 0x200A
    ||| u == 0x2028
    ||| u == 0x2029
    ||| u == 0x202F
    ||| u == 0x205F
    ||| u == 0x3000
}

/// Whether `c` is white space.
pub fn is_whitespace(c: char) -> (b: bool)
    ensures
        b == is_space(c),
{
    let u: u32 = c as u32;
    (0x09 <= u && u <= 0x0D) || u == 0x20 || u == 0x85 || u == 0xA0 || u == 0x1680 || (0x2000 <= u
        && u <= 0x200A) || u == 0x2028 || u == 0x2029 || u == 0x202F || u == 0x205F || u == 0x3000
}

/// The first position at or after `i` that holds no white space.
pub open spec fn skip_space(s: Seq<char>, i: int) -> int
    decreases s.len() - i,
{
    if 0 <= i < s.len() && is_space(s[i]) {
        skip_space(s, i + 1)
    } else {
        i
    }
}

/// The first position at or after `i` that holds white space, or the end.
pub open spec fn skip_word(s: Seq<char>, i: int) -> int
    decreases s.len() - i,
{
    if 0 <= i < s.len() && !is_space(s[i]) {
        skip_word(s, i + 1)
    } else {
        i
    }
}

/// The fields of `s` that begin at or after position `i`.
pub open spec fn fields_from(s: Seq<char>, i: int) -> Seq<Seq<char>>
    decreases s.len() - i,
{
    let a = skip_space(s, i);
    let b = skip_word(s, a);
    if 0 <= i <= a < b <= s.len() {
        seq![s.subrange(a, b)] + fields_from(s, b)
    } else {
        Seq::empty()
    }
}

/// The fields of a line: its maximal runs of characters that are not white
/// space, in order.
pub open spec fn fields(s: Seq<char>) -> Seq<Seq<char>> {
    fields_from(s, 0)
}

/// What each of `parts` holds, as sequences.
pub open spec fn tokens(parts: Seq<Vec<char>>) -> Seq<Seq<char>> {
    parts.map_values(|p: Vec<char>| p@)
}

/// Field `k` of a line, or the empty sequence where the line has no such field.
pub open spec fn field_or_empty(s: Seq<char>, k: int) -> Seq<char> {
    if 0 <= k < fields(s).len() {
        fields(s)[k]
    } else {
        Seq::empty()
    }
}

proof fn lemma_skip_bounds(s: Seq<char>, i: int)
    requires
        0 <= i <= s.len(),
    ensures
        i <= skip_space(s, i) <= s.len(),
        i <= skip_word(s, i) <= s.len(),
    decreases s.len() - i,
{
    if i < s.len() {
        lemma_skip_bounds(s, i + 1);
    }
}

/// No field is empty, and no field holds white space.
pub proof fn lemma_fields_hold_no_space(s: Seq<char>, k: int)
    requires
        0 <= k < fields(s).len(),
    ensures
        fields(s)[k].len() > 0,
        forall|j: int| 0 <= j < fields(s)[k].len() ==> !is_space(#[trigger] fields(s)[k][j]),
{
    lemma_fields_from_hold_no_space(s, 0, k);
}

proof fn lemma_fields_from_hold_no_space(s: Seq<char>, i: int, k: int)
    requires
        0 <= i <= s.len(),
        0 <= k < fields_from(s, i).len(),
    ensures
        fields_from(s, i)[k].len() > 0,
        forall|j: int|
            0 <= j < fields_from(s, i)[k].len() ==> !is_space(#[trigger] fields_from(s, i)[k][j]),
    decreases s.len() - i,
{
    let a = skip_space(s, i);
    let b = skip_word(s, a);
    lemma_skip_bounds(s, i);
    lemma_skip_bounds(s, a);
    if k == 0 {
        lemma_word_holds_no_space(s, a, b);
    } else {
        lemma_fields_from_hold_no_space(s, b, k - 1);
    }
}

proof fn lemma_word_holds_no_space(s: Seq<char>, a: int, b: int)
    requires
        0 <= a <= b <= s.len(),
        b == skip_word(s, a),
    ensures
        forall|j: int| a <= j < b ==> !is_space(#[trigger] s[j]),
    decreases b - a,
{
    if a < b {
        lemma_word_holds_no_space(s, a + 1, b);
    }
}

/// The fields of `line`, as the standard library's `split_whitespace` yields them.
pub fn split_whitespace(line: &Vec<char>) -> (parts: Vec<Vec<char>>)
    ensures
        tokens(parts@) == fields(line@),
{
    let mut parts: Vec<Vec<char>> = Vec::new();
    let mut i: usize = 0;
    loop
        invariant_except_break
            i <= line.len(),
            tokens(parts@) + fields_from(line@, i as int) == fields(line@),
        ensures
            tokens(parts@) == fields(line@),
        decreases line.len() - i,
    {
        let mut a: usize = i;
        while a < line.len() && is_whitespace(line[a])
            invariant
                i <= a <= line.len(),
                skip_space(line@, a as int) == skip_space(line@, i as int),
            decreases line.len() - a,
        {
            a += 1;
        }
        let mut b: usize = a;
        while b < line.len() && !is_whitespace(line[b])
            invariant
                a <= b <= line.len(),
                skip_word(line@, b as int) == skip_word(line@, a as int),
            decreases line.len() - b,
        {
            b += 1;
        }
        if b == a {
            assert(fields_from(line@, i as int) == Seq::<Seq<char>>::empty());
            assert(tokens(parts@) + Seq::<Seq<char>>::empty() == tokens(parts@));
            break;
        }
        let word = slice_of(line, a, b);
        proof {
            assert(tokens(parts@.push(word)) == tokens(parts@).push(word@));
            assert(tokens(parts@).push(word@) + fields_from(line@, b as int) == tokens(parts@) + (
            seq![word@] + fields_from(line@, b as int)));
        }
        parts.push(word);
        i = b;
    }
    parts
}

/// The first position at or after `i` that holds a line feed, or the end.
pub open spec fn line_end(s: Seq<char>, i: int) -> int
    decreases s.len() - i,
{
    if 0 <= i < s.len() && s[i] != '\n' {
        line_end(s, i + 1)
    } else {
        i
    }
}

/// `line` without the carriage return that ends it, if one does.
pub open spec fn trim_return(line: Seq<char>) -> Seq<char> {
    if line.len() > 0 && line.last() == '\r' {
        line.drop_last()
    } else {
        line
    }
}

/// The lines of `s` that begin at or after position `i`.
pub open spec fn lines_from(s: Seq<char>, i: int) -> Seq<Seq<char>>
    decreases s.len() - i,
{
    if 0 <= i < s.len() {
        let e = line_end(s, i);
        if i <= e < s.len() {
            seq![trim_return(s.subrange(i, e))] + lines_from(s, e + 1)
        } else {
            seq![s.subrange(i, s.len() as int)]
        }
    } else {
        Seq::empty()
    }
}

/// The lines of a text. A line ends at a line feed, or at a carriage return
/// followed by a line feed; neither belongs to the line. What follows the last
/// line feed is a line if it is not empty, and keeps a carriage return at its end.
pub open spec fn lines(s: Seq<char>) -> Seq<Seq<char>> {
    lines_from(s, 0)
}

/// The lines of `text`, as the standard library's `lines` yields them.
pub fn split_lines(text: &Vec<char>) -> (out: Vec<Vec<char>>)
    ensures
        tokens(out@) == lines(text@),
{
    let mut out: Vec<Vec<char>> = Vec::new();
    let mut i: usize = 0;
    while i < text.len()
        invariant
            i <= text.len(),
            tokens(out@) + lines_from(text@, i as int) == lines(text@),
        decreases text.len() - i,
    {
        let mut e: usize = i;
        while e < text.len() && text[e] != '\n'
            invariant
                i <= e <= text.len(),
                line_end(text@, e as int) == line_end(text@, i as int),
            decreases text.len() - e,
        {
            e += 1;
        }
        if e < text.len() {
            let stop: usize = if e > i && text[e - 1] == '\r' {
                (e - 1) as usize
            } else {
                e
            };
            let line = slice_of(text, i, stop);
            proof {
                let whole = text@.subrange(i as int, e as int);
                assert(line@ == trim_return(whole));
                assert(tokens(out@.push(line)) == tokens(out@).push(line@));
                assert(tokens(out@).push(line@) + lines_from(text@, e + 1) == tokens(out@) + (
                seq![line@] + lines_from(text@, e + 1)));
            }
            out.push(line);
            i = e + 1;
        } else {
            let line = slice_of(text, i, e);
            proof {
                assert(tokens(out@.push(line)) == tokens(out@).push(line@));
                assert(lines_from(text@, e as int) == Seq::<Seq<char>>::empty());
                assert(tokens(out@).push(line@) + Seq::<Seq<char>>::empty() == tokens(out@)
                    + seq![line@]);
            }
            out.push(line);
            i = e;
        }
    }
    assert(tokens(out@) + Seq::<Seq<char>>::empty() == tokens(out@));
    out
}

/// Whether `c` is one of the ten decimal digits.
pub open spec fn is_digit(c: char) -> bool {
    0x30 <= c as u32 <= 0x39
}

/// The number that the digit `c` stands for.
pub open spec fn digit_value(c: char) -> nat {
    (c as u32 - 0x30) as nat
}

/// Whether every character of `s` is a decimal digit.
pub open spec fn all_digits(s: Seq<char>) -> bool {
    forall|i: int| 0 <= i < s.len() ==> is_digit(#[trigger] s[i])
}

/// The number that the digits of `s` spell in base ten.
pub open spec fn digits_value(s: Seq<char>) -> nat
    decreases s.len(),
{
    if s.len() == 0 {
        0
    } else {
        10 * digits_value(s.drop_last()) + digit_value(s.last())
    }
}

/// The number that `s` spells: an optional plus sign, then one or more decimal
/// digits. `None` where `s` has another form.
pub open spec fn unsigned(s: Seq<char>) -> Option<nat> {
    let body = if s.len() > 0 && s[0] == '+' {
        s.drop_first()
    } else {
        s
    };
    if body.len() > 0 && all_digits(body) {
        Some(digits_value(body))
    } else {
        None
    }
}

/// The number that `s` spells, where it is at most `max`.
pub open spec fn unsigned_within(s: Seq<char>, max: nat) -> Option<nat> {
    match unsigned(s) {
        Some(n) => if n <= max {
            Some(n)
        } else {
            None
        },
        None => None,
    }
}

/// A run of digits spells at least what any of its beginnings spells.
pub proof fn lemma_digits_value_grows(s: Seq<char>, k: int)
    requires
        0 <= k <= s.len(),
    ensures
        digits_value(s.take(k)) <= digits_value(s),
    decreases s.len() - k,
{
    if k < s.len() {
        lemma_digits_value_grows(s.drop_last(), k);
        assert(s.drop_last().take(k) == s.take(k));
    } else {
        assert(s.take(k) == s);
    }
}

/// Reads `s` as an unsigned decimal number that is at most `max`, as the
/// standard library reads an unsigned integer: an optional plus sign, then one
/// or more decimal digits.
pub fn parse_unsigned(s: &Vec<char>, max: u64) -> (r: Option<u64>)
    ensures
        match unsigned_within(s@, max as nat) {
            Some(n) => r == Some(n as u64),
            None => r is None,
        },
{
    let start: usize = if s.len() > 0 && s[0] == '+' {
        1
    } else {
        0
    };
    if start == s.len() {
        return None;
    }
    let ghost body = s@.subrange(start as int, s.len() as int);
    let mut acc: u128 = 0;
    let mut i: usize = start;
    while i < s.len()
        invariant
            start <= i <= s.len(),
            body == s@.subrange(start as int, s.len() as int),
            body.len() > 0,
            body == if s@.len() > 0 && s@[0] == '+' {
                s@.drop_first()
            } else {
                s@
            },
            all_digits(body.take(i - start)),
            acc == digits_value(body.take(i - start)),
            acc <= max,
        decreases s.len() - i,
    {
        let c = s[i];
        let u: u32 = c as u32;
        if u < 0x30 || u > 0x39 {
            assert(!is_digit(body[i - start]));
            return None;
        }
        let ghost shorter = body.take(i - start);
        let ghost longer = body.take(i - start + 1);
        assert(longer.drop_last() == shorter);
        assert(longer.last() == c);
        acc = acc * 10 + (u - 0x30) as u128;
        assert(acc == digits_value(longer));
        if acc > max as u128 {
            proof {
                if all_digits(body) {
                    lemma_digits_value_grows(body, i - start + 1);
                }
            }
            return None;
        }
        i += 1;
    }
    assert(body.take(i - start) == body);
    Some(acc as u64)
}

/// The character that writes the digit `d`.
pub open spec fn digit_char(d: nat) -> char
    recommends
        d < 10,
{
    (0x30 + d) as u8 as char
}

/// The decimal digits of `n`, without leading zeros.
pub open spec fn decimal(n: nat) -> Seq<char>
    decreases n,
{
    if n < 10 {
        seq![digit_char(n)]
    } else {
        decimal(n / 10).push(digit_char(n % 10))
    }
}

/// `n` written in decimal digits.
pub fn decimal_string(n: usize) -> (s: String)
    ensures
        s@ == decimal(n as nat),
    decreases n,
{
    if n < 10 {
        let mut s = String::new();
        s.push((0x30 + n as u8) as char);
        s
    } else {
        let mut s = decimal_string(n / 10);
        s.push((0x30 + (n % 10) as u8) as char);
        s
    }
}

} // verus!
