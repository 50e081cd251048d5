//! Character-level building blocks of the version grammar: splitting a text
//! at delimiter characters, and reading and writing small decimal numerals.
//!
//! Every text is modelled as a `Seq<char>`, the view of a `str`.

use vstd::prelude::*;
use vstd::string::*;

verus! {

/// `c` is one of the ten decimal digits.
pub open spec fn is_digit(c: char) -> bool {
    48 <= c as u32 && c as u32 <= 57
}

/// The number that the digit `c` stands for.
pub open spec fn digit_of(c: char) -> nat
    recommends
        is_digit(c),
{
    (c as u32 - 48) as nat
}

/// The digit that stands for `d`.
pub open spec fn digit_char(d: nat) -> char
    recommends
        d < 10,
{
    if d == 0 {
        '0'
    } else if d == 1 {
        '1'
    } else if d == 2 {
        '2'
    } else if d == 3 {
        '3'
    } else if d == 4 {
        '4'
    } else if d == 5 {
        '5'
    } else if d == 6 {
        '6'
    } else if d == 7 {
        '7'
    } else if d == 8 {
        '8'
    } else {
        '9'
    }
}

/// Every character of `s` is a decimal digit.
pub open spec fn all_digits(s: Seq<char>) -> bool {
    forall|i: int| 0 <= i < s.len() ==> is_digit(#[trigger] s[i])
}

/// The number written by the digits `s`, most significant digit first.
/// The empty sequence writes zero.
pub open spec fn decimal_value(s: Seq<char>) -> nat
    decreases s.len(),
{
    if s.len() == 0 {
        0
    } else {
        10 * decimal_value(s.drop_last()) + digit_of(s.last())
    }
}

/// The digits of a numeral: the text without its optional leading `+`.
pub open spec fn numeral_digits(s: Seq<char>) -> Seq<char> {
    if s.len() > 0 && s[0] == '+' {
        s.drop_first()
    } else {
        s
    }
}

/// `s` is a numeral: an optional `+`, then one or more decimal digits.
/// Leading zeros are allowed; a sign alone, or a `-`, is not a numeral.
pub open spec fn is_numeral(s: Seq<char>) -> bool {
    numeral_digits(s).len() > 0 && all_digits(numeral_digits(s))
}

/// The value of `s` read as a numeral that fits in eight bits: `None` when
/// `s` is not a numeral or writes a number above 255.
pub open spec fn parse_u8_spec(s: Seq<char>) -> Option<u8> {
    if is_numeral(s) && decimal_value(numeral_digits(s)) <= 255 {
        Some(decimal_value(numeral_digits(s)) as u8)
    } else {
        None
    }
}

/// The canonical decimal writing of `n`: no sign and no leading zero.
pub open spec fn decimal(n: nat) -> Seq<char>
    decreases n,
{
    if n < 10 {
        seq![digit_char(n)]
    } else {
        decimal(n / 10).push(digit_char(n % 10))
    }
}

/// `c` is one of the two delimiters `a` and `b`.
pub open spec fn is_delimiter(c: char, a: char, b: char) -> bool {
    c == a || c == b
}

/// The position of the first delimiter in `s`, or the length of `s` when it
/// holds none.
pub open spec fn first_delimiter(s: Seq<char>, a: char, b: char) -> int
    decreases s.len(),
{
    if s.len() == 0 || is_delimiter(s[0], a, b) {
        0
    } else {
        1 + first_delimiter(s.drop_first(), a, b)
    }
}

/// The pieces of `s` between delimiters, in order. A text with `k`
/// delimiters has `k + 1` pieces, some of which may be empty; the empty text
/// has one empty piece.
pub open spec fn split_spec(s: Seq<char>, a: char, b: char) -> Seq<Seq<char>>
    decreases s.len(),
{
    let k = first_delimiter(s, a, b);
    if 0 <= k < s.len() {
        seq![s.take(k)] + split_spec(s.skip(k + 1), a, b)
    } else {
        seq![s]
    }
}

/// The texts held by a list of character vectors.
pub open spec fn views(parts: Seq<Vec<char>>) -> Seq<Seq<char>> {
    parts.map_values(|p: Vec<char>| p@)
}

/// No character of `s` is a delimiter.
pub open spec fn delimiter_free(s: Seq<char>, a: char, b: char) -> bool {
    forall|i: int| 0 <= i < s.len() ==> !is_delimiter(#[trigger] s[i], a, b)
}

/// A position `k` with no delimiter before it, which is the end of the text
/// or holds a delimiter, is the position of the first delimiter.
pub proof fn lemma_first_delimiter_at(s: Seq<char>, a: char, b: char, k: int)
    requires
        0 <= k <= s.len(),
        forall|i: int| 0 <= i < k ==> !is_delimiter(#[trigger] s[i], a, b),
        k < s.len() ==> is_delimiter(s[k], a, b),
    ensures
        first_delimiter(s, a, b) == k,
    decreases s.len(),
{
    if k == 0 {
    } else {
        assert(!is_delimiter(s[0], a, b));
        let rest = s.drop_first();
        assert forall|i: int| 0 <= i < k - 1 implies !is_delimiter(#[trigger] rest[i], a, b) by {
            assert(rest[i] == s[i + 1]);
        }
        lemma_first_delimiter_at(rest, a, b, k - 1);
    }
}

/// A text without delimiters is its own single piece.
pub proof fn lemma_split_delimiter_free(s: Seq<char>, a: char, b: char)
    requires
        delimiter_free(s, a, b),
    ensures
        split_spec(s, a, b) == seq![s],
{
    lemma_first_delimiter_at(s, a, b, s.len() as int);
}

/// Splitting a delimiter-free text, a delimiter and a rest gives the text
/// followed by the pieces of the rest.
pub proof fn lemma_split_concat(head: Seq<char>, d: char, tail: Seq<char>, a: char, b: char)
    requires
        delimiter_free(head, a, b),
        is_delimiter(d, a, b),
    ensures
        split_spec(head + seq![d] + tail, a, b) == seq![head] + split_spec(tail, a, b),
{
    let s = head + seq![d] + tail;
    let k = head.len() as int;
    assert forall|i: int| 0 <= i < k implies !is_delimiter(#[trigger] s[i], a, b) by {
        assert(s[i] == head[i]);
    }
    assert(s[k] == d);
    lemma_first_delimiter_at(s, a, b, k);
    assert(s.take(k) =~= head);
    assert(s.skip(k + 1) =~= tail);
}

/// The value of a run of digits is at least the value of each of its
/// prefixes.
pub proof fn lemma_decimal_value_prefix(s: Seq<char>, k: int)
    requires
        0 <= k <= s.len(),
    ensures
        decimal_value(s.take(k)) <= decimal_value(s),
    decreases s.len() - k,
{
    if k == s.len() {
        assert(s.take(k) =~= s);
    } else {
        lemma_decimal_value_prefix(s.drop_last(), k);
        assert(s.drop_last().take(k) =~= s.take(k));
    }
}

/// The canonical writing of a number below 256 is a numeral of one to three
/// digits that reads back as the same number.
pub proof fn lemma_decimal_roundtrip(n: nat)
    requires
        n <= 255,
    ensures
        1 <= decimal(n).len() <= 3,
        all_digits(decimal(n)),
        decimal_value(decimal(n)) == n,
        parse_u8_spec(decimal(n)) == Some(n as u8),
{
    reveal_with_fuel(decimal, 3);
    reveal_with_fuel(decimal_value, 4);
    let s = decimal(n);
    if n < 10 {
        assert(s =~= seq![digit_char(n)]);
        assert(s.drop_last() =~= Seq::<char>::empty());
    } else if n < 100 {
        assert(s =~= seq![digit_char(n / 10), digit_char(n % 10)]);
        assert(s.drop_last() =~= seq![digit_char(n / 10)]);
        assert(s.drop_last().drop_last() =~= Seq::<char>::empty());
    } else {
        assert(s =~= seq![digit_char(n / 100), digit_char((n / 10) % 10), digit_char(n % 10)]);
        assert(s.drop_last() =~= seq![digit_char(n / 100), digit_char((n / 10) % 10)]);
        assert(s.drop_last().drop_last() =~= seq![digit_char(n / 100)]);
        assert(s.drop_last().drop_last().drop_last() =~= Seq::<char>::empty());
    }
    assert(s[0] != '+');
    assert(numeral_digits(s) == s);
}

/// Cuts `s` at every occurrence of the delimiters `a` and `b`.
pub fn split(s: &Vec<char>, a: char, b: char) -> (parts: Vec<Vec<char>>)
    ensures
        views(parts@) == split_spec(s@, a, b),
{
    let mut parts: Vec<Vec<char>> = Vec::new();
    let mut piece: Vec<char> = Vec::new();
    let mut i: usize = 0;
    let ghost mut start: int = 0;
    proof {
        assert(s@.skip(0) =~= s@);
        assert(views(parts@) =~= Seq::<Seq<char>>::empty());
    }
    while i < s.len()
        invariant
            0 <= start <= i <= s.len(),
            piece@ == s@.subrange(start, i as int),
            forall|j: int| start <= j < i ==> !is_delimiter(#[trigger] s@[j], a, b),
            split_spec(s@, a, b) == views(parts@) + split_spec(s@.skip(start), a, b),
        decreases s.len() - i,
    {
        let c = s[i];
        if c == a || c == b {
            proof {
                let rest = s@.skip(start);
                let k = i - start;
                assert forall|j: int| 0 <= j < k implies !is_delimiter(
                    #[trigger] rest[j],
                    a,
                    b,
                ) by {
                    assert(rest[j] == s@[start + j]);
                }
                lemma_first_delimiter_at(rest, a, b, k);
                assert(rest.take(k) =~= piece@);
                assert(rest.skip(k + 1) =~= s@.skip(i + 1));
                assert(views(parts@.push(piece)) =~= views(parts@) + seq![piece@]);
                start = i + 1;
            }
            parts.push(piece);
            piece = Vec::new();
            proof {
                assert(piece@ =~= s@.subrange(start, i + 1));
            }
        } else {
            piece.push(c);
            proof {
                assert(piece@ =~= s@.subrange(start, i + 1));
            }
        }
        i += 1;
    }
    proof {
        let rest = s@.skip(start);
        assert(rest =~= piece@);
        assert forall|j: int| 0 <= j < rest.len() implies !is_delimiter(
            #[trigger] rest[j],
            a,
            b,
        ) by {
            assert(rest[j] == s@[start + j]);
        }
        lemma_split_delimiter_free(rest, a, b);
        assert(views(parts@.push(piece)) =~= views(parts@) + seq![piece@]);
    }
    parts.push(piece);
    parts
}

/// Reads `s` as a numeral that fits in eight bits.
pub fn parse_u8(s: &Vec<char>) -> (r: Option<u8>)
    ensures
        r == parse_u8_spec(s@),
{
    let n = s.len();
    let first: usize = if n > 0 && s[0] == '+' {
        1
    } else {
        0
    };
    let ghost digits = numeral_digits(s@);
    proof {
        assert(digits =~= s@.skip(first as int));
    }
    if first == n {
        return None;
    }
    let mut value: u32 = 0;
    let mut i: usize = first;
    while i < n
        invariant
            first <= i <= n,
            n == s.len(),
            digits == s@.skip(first as int),
            digits.len() > 0,
            digits == numeral_digits(s@),
            all_digits(digits.take(i - first)),
            value == decimal_value(digits.take(i - first)),
            value <= 255,
        decreases n - i,
    {
        let c = s[i];
        let code: u32 = c as u32;
        if code < 48 || code > 57 {
            proof {
                assert(digits[i - first] == c);
                assert(!is_digit(c));
            }
            return None;
        }
        let ghost before = digits.take(i - first);
        let ghost after = digits.take(i - first + 1);
        proof {
            assert(after.drop_last() =~= before);
            assert(after.last() == c);
            assert(is_digit(c));
            assert forall|j: int| 0 <= j < after.len() implies is_digit(#[trigger] after[j]) by {
                if j < before.len() {
                    assert(after[j] == before[j]);
                }
            }
        }
        let next: u32 = value * 10 + (code - 48);
        if next > 255 {
            proof {
                lemma_decimal_value_prefix(digits, i - first + 1);
            }
            return None;
        }
        value = next;
        i += 1;
    }
    proof {
        assert(digits.take(n - first) =~= digits);
    }
    Some(value as u8)
}

/// The characters of `s`, one by one.
pub fn chars_of(s: &str) -> (v: Vec<char>)
    ensures
        v@ == s@,
{
    let mut v: Vec<char> = Vec::new();
    for c in it: s.chars()
        invariant
            it.seq() == s@,
            v@ == it.seq().take(it.index() as int),
    {
        v.push(c);
    }
    v
}

/// What follows `prefix` in `s`, when `s` begins with `prefix`.
pub fn strip_prefix(s: &Vec<char>, prefix: &str) -> (rest: Option<Vec<char>>)
    ensures
        match rest {
            Some(r) => prefix@.is_prefix_of(s@) && r@ == s@.skip(prefix@.len() as int),
            None => !prefix@.is_prefix_of(s@),
        },
{
    let p = chars_of(prefix);
    if p.len() > s.len() {
        return None;
    }
    let mut i: usize = 0;
    while i < p.len()
        invariant
            0 <= i <= p.len() <= s.len(),
            p@ == prefix@,
            forall|j: int| 0 <= j < i ==> s@[j] == p@[j],
        decreases p.len() - i,
    {
        if s[i] != p[i] {
            proof {
                if prefix@.is_prefix_of(s@) {
                    assert(s@.subrange(0, prefix@.len() as int)[i as int] == prefix@[i as int]);
                }
            }
            return None;
        }
        i += 1;
    }
    proof {
        assert(s@.subrange(0, prefix@.len() as int) =~= prefix@);
    }
    let mut rest: Vec<char> = Vec::new();
    while i < s.len()
        invariant
            p.len() <= i <= s.len(),
            p@ == prefix@,
            rest@ == s@.subrange(p.len() as int, i as int),
        decreases s.len() - i,
    {
        rest.push(s[i]);
        proof {
            assert(rest@ =~= s@.subrange(p.len() as int, i + 1));
        }
        i += 1;
    }
    proof {
        assert(rest@ =~= s@.skip(prefix@.len() as int));
    }
    Some(rest)
}

/// The one-character text that writes the digit `d`.
pub fn digit_text(d: u8) -> (t: &'static str)
    requires
        d < 10,
    ensures
        t@ == seq![digit_char(d as nat)],
{
    proof {
        reveal_strlit("0");
        reveal_strlit("1");
        reveal_strlit("2");
        reveal_strlit("3");
        reveal_strlit("4");
        reveal_strlit("5");
        reveal_strlit("6");
        reveal_strlit("7");
        reveal_strlit("8");
        reveal_strlit("9");
    }
    let t = if d == 0 {
        "0"
    } else if d == 1 {
        "1"
    } else if d == 2 {
        "2"
    } else if d == 3 {
        "3"
    } else if d == 4 {
        "4"
    } else if d == 5 {
        "5"
    } else if d == 6 {
        "6"
    } else if d == 7 {
        "7"
    } else if d == 8 {
        "8"
    } else {
        "9"
    };
    assert(t@ =~= seq![digit_char(d as nat)]);
    t
}

/// Appends the canonical decimal writing of `n` to `out`.
pub fn push_decimal(out: &mut String, n: u8)
    ensures
        final(out)@ == old(out)@ + decimal(n as nat),
{
    proof {
        reveal_with_fuel(decimal, 3);
    }
    if n >= 100 {
        out.append(digit_text(n / 100));
    }
    if n >= 10 {
        out.append(digit_text((n / 10) % 10));
    }
    out.append(digit_text(n % 10));
    proof {
        let m = n as nat;
        if m < 10 {
            assert(decimal(m) =~= seq![digit_char(m)]);
        } else if m < 100 {
            assert(decimal(m) =~= seq![digit_char(m / 10), digit_char(m % 10)]);
        } else {
            assert(decimal(m) =~= seq![
                digit_char(m / 100),
                digit_char((m / 10) % 10),
                digit_char(m % 10),
            ]);
        }
        assert(out@ =~= old(out)@ + decimal(m));
    }
}

} // verus!
