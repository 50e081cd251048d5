//! Version identifiers: a version triple, a pre-release marker and a build
//! flavour, with the grammar that reads them from text and writes them back.
//!
//! A version identifier is written `vMAJOR.MINOR.PATCH-MARK`, optionally
//! followed by `_mono`. Reading is more liberal than writing: `-` and `_`
//! are both delimiters wherever they occur, a number may carry a `+` or
//! leading zeros, and whatever follows a second delimiter marks the mono
//! flavour.

use crate::error::Error;
use crate::text::{
    chars_of, decimal, delimiter_free, is_delimiter, is_digit, lemma_decimal_roundtrip,
    lemma_split_concat, lemma_split_delimiter_free, parse_u8, parse_u8_spec, push_decimal, split,
    split_spec, strip_prefix, views,
};
use vstd::prelude::*;
use vstd::string::*;

verus! {

/// How mature a release is.
#[derive(Clone, Copy, PartialEq, Eq, Structural, Hash, Debug)]
pub enum TestMark {
    Stable,
    Alpha(u8),
    Beta(u8),
    Rc(u8),
}

/// A version identifier. Two identifiers are equal when all five fields are.
#[derive(Clone, Copy, PartialEq, Eq, Structural, Hash, Debug)]
pub struct GodotVersion {
    pub major: u8,
    pub minor: u8,
    pub patch: u8,
    pub testmark: TestMark,
    pub is_mono: bool,
}

/// The marker that `s` writes: `stable`, or `alpha`, `beta` or `rc` directly
/// followed by a numeral up to 255.
pub open spec fn parse_testmark(s: Seq<char>) -> Option<TestMark> {
    if "alpha"@.is_prefix_of(s) {
        match parse_u8_spec(s.skip("alpha"@.len() as int)) {
            Some(n) => Some(TestMark::Alpha(n)),
            None => None,
        }
    } else if "beta"@.is_prefix_of(s) {
        match parse_u8_spec(s.skip("beta"@.len() as int)) {
            Some(n) => Some(TestMark::Beta(n)),
            None => None,
        }
    } else if "rc"@.is_prefix_of(s) {
        match parse_u8_spec(s.skip("rc"@.len() as int)) {
            Some(n) => Some(TestMark::Rc(n)),
            None => None,
        }
    } else if s == "stable"@ {
        Some(TestMark::Stable)
    } else {
        None
    }
}

/// The version triple that `s` writes: the letter `v`, then exactly three
/// numerals up to 255 with a `.` between them.
pub open spec fn parse_triple(s: Seq<char>) -> Option<(u8, u8, u8)> {
    if s.len() > 0 && s[0] == 'v' {
        let parts = split_spec(s.drop_first(), '.', '.');
        if parts.len() == 3 {
            match (parse_u8_spec(parts[0]), parse_u8_spec(parts[1]), parse_u8_spec(parts[2])) {
                (Some(major), Some(minor), Some(patch)) => Some((major, minor, patch)),
                _ => None,
            }
        } else {
            None
        }
    } else {
        None
    }
}

/// The version identifier that `s` writes. The text is cut at every `-` and
/// `_`. The first piece is the version triple and the second the marker; a
/// third piece, whatever it holds, marks the mono flavour, and further
/// pieces are not looked at.
pub open spec fn parse_version(s: Seq<char>) -> Option<GodotVersion> {
    let pieces = split_spec(s, '-', '_');
    if pieces.len() >= 2 {
        match (parse_triple(pieces[0]), parse_testmark(pieces[1])) {
            (Some(triple), Some(testmark)) => Some(
                GodotVersion {
                    major: triple.0,
                    minor: triple.1,
                    patch: triple.2,
                    testmark,
                    is_mono: pieces.len() > 2,
                },
            ),
            _ => None,
        }
    } else {
        None
    }
}

/// The canonical text of a marker.
pub open spec fn format_testmark(m: TestMark) -> Seq<char> {
    match m {
        TestMark::Stable => "stable"@,
        TestMark::Alpha(n) => "alpha"@ + decimal(n as nat),
        TestMark::Beta(n) => "beta"@ + decimal(n as nat),
        TestMark::Rc(n) => "rc"@ + decimal(n as nat),
    }
}

/// The canonical text of the version triple of `v`.
pub open spec fn format_triple(v: GodotVersion) -> Seq<char> {
    seq!['v'] + decimal(v.major as nat) + seq!['.'] + decimal(v.minor as nat) + seq!['.']
        + decimal(v.patch as nat)
}

/// The canonical text of a version identifier.
pub open spec fn format_version(v: GodotVersion) -> Seq<char> {
    format_triple(v) + seq!['-'] + format_testmark(v.testmark) + if v.is_mono {
        "_mono"@
    } else {
        Seq::<char>::empty()
    }
}

/// The number that stands for a marker's kind in a key.
pub open spec fn testmark_tag(m: TestMark) -> nat {
    match m {
        TestMark::Stable => 0,
        TestMark::Alpha(_) => 1,
        TestMark::Beta(_) => 2,
        TestMark::Rc(_) => 3,
    }
}

/// The number that a marker carries; zero for `Stable`.
pub open spec fn testmark_number(m: TestMark) -> nat {
    match m {
        TestMark::Stable => 0,
        TestMark::Alpha(n) => n as nat,
        TestMark::Beta(n) => n as nat,
        TestMark::Rc(n) => n as nat,
    }
}

/// The integer under which a version is filed in a table: its fields packed
/// in the order major, minor, patch, marker kind, marker number, flavour.
pub open spec fn key_spec(v: GodotVersion) -> nat {
    (((((v.major as nat * 256 + v.minor as nat) * 256 + v.patch as nat) * 4 + testmark_tag(
        v.testmark,
    )) * 256 + testmark_number(v.testmark)) * 2 + if v.is_mono {
        1nat
    } else {
        0nat
    }) as nat
}

/// Different versions have different keys.
pub proof fn lemma_key_injective(a: GodotVersion, b: GodotVersion)
    requires
        key_spec(a) == key_spec(b),
    ensures
        a == b,
{
    let ta = testmark_tag(a.testmark);
    let tb = testmark_tag(b.testmark);
    let na = testmark_number(a.testmark);
    let nb = testmark_number(b.testmark);
    assert(ta < 4 && tb < 4 && na < 256 && nb < 256);
    assert(a.is_mono == b.is_mono);
    assert(na == nb);
    assert(ta == tb);
    assert(a.patch == b.patch);
    assert(a.minor == b.minor);
    assert(a.major == b.major);
}

/// A key fits in 64 bits.
pub proof fn lemma_key_bound(v: GodotVersion)
    ensures
        key_spec(v) < 0x8_0000_0000,
{
}

/// The texts of the markers hold neither `-` nor `_`, and each is read back
/// as the marker it writes.
pub proof fn lemma_testmark_roundtrip(m: TestMark)
    ensures
        delimiter_free(format_testmark(m), '-', '_'),
        parse_testmark(format_testmark(m)) == Some(m),
{
    reveal_strlit("alpha");
    reveal_strlit("beta");
    reveal_strlit("rc");
    reveal_strlit("stable");
    let t = format_testmark(m);
    match m {
        TestMark::Stable => {
            assert(!"alpha"@.is_prefix_of(t)) by {
                if "alpha"@.is_prefix_of(t) {
                    assert(t.subrange(0, 5)[0] == 'a');
                }
            }
            assert(!"beta"@.is_prefix_of(t)) by {
                if "beta"@.is_prefix_of(t) {
                    assert(t.subrange(0, 4)[0] == 'b');
                }
            }
            assert(!"rc"@.is_prefix_of(t)) by {
                if "rc"@.is_prefix_of(t) {
                    assert(t.subrange(0, 2)[0] == 'r');
                }
            }
        },
        TestMark::Alpha(n) => {
            lemma_decimal_roundtrip(n as nat);
            let d = decimal(n as nat);
            assert(t.subrange(0, 5) =~= "alpha"@);
            assert(t.skip(5) =~= d);
            assert forall|i: int| 0 <= i < t.len() implies !is_delimiter(#[trigger] t[i], '-', '_') by {
                if i >= 5 {
                    assert(t[i] == d[i - 5]);
                    assert(is_digit(d[i - 5]));
                }
            }
        },
        TestMark::Beta(n) => {
            lemma_decimal_roundtrip(n as nat);
            let d = decimal(n as nat);
            assert(!"alpha"@.is_prefix_of(t)) by {
                if "alpha"@.is_prefix_of(t) {
                    assert(t.subrange(0, 5)[0] == 'a');
                }
            }
            assert(t.subrange(0, 4) =~= "beta"@);
            assert(t.skip(4) =~= d);
            assert forall|i: int| 0 <= i < t.len() implies !is_delimiter(#[trigger] t[i], '-', '_') by {
                if i >= 4 {
                    assert(t[i] == d[i - 4]);
                    assert(is_digit(d[i - 4]));
                }
            }
        },
        TestMark::Rc(n) => {
            lemma_decimal_roundtrip(n as nat);
            let d = decimal(n as nat);
            assert(!"alpha"@.is_prefix_of(t)) by {
                if "alpha"@.is_prefix_of(t) {
                    assert(t.subrange(0, 5)[0] == 'a');
                }
            }
            assert(!"beta"@.is_prefix_of(t)) by {
                if "beta"@.is_prefix_of(t) {
                    assert(t.subrange(0, 4)[0] == 'b');
                }
            }
            assert(t.subrange(0, 2) =~= "rc"@);
            assert(t.skip(2) =~= d);
            assert forall|i: int| 0 <= i < t.len() implies !is_delimiter(#[trigger] t[i], '-', '_') by {
                if i >= 2 {
                    assert(t[i] == d[i - 2]);
                    assert(is_digit(d[i - 2]));
                }
            }
        },
    }
}

/// The canonical writing of a number below 256 holds none of `.`, `-`, `_`.
pub proof fn lemma_decimal_delimiter_free(n: nat)
    requires
        n <= 255,
    ensures
        delimiter_free(decimal(n), '.', '.'),
        delimiter_free(decimal(n), '-', '_'),
{
    lemma_decimal_roundtrip(n);
    let d = decimal(n);
    assert forall|i: int| 0 <= i < d.len() implies !is_delimiter(#[trigger] d[i], '.', '.')
        && !is_delimiter(d[i], '-', '_') by {
        assert(is_digit(d[i]));
    }
}

/// The text of a version triple holds neither `-` nor `_`, and is read back
/// as the triple it writes.
pub proof fn lemma_triple_roundtrip(v: GodotVersion)
    ensures
        delimiter_free(format_triple(v), '-', '_'),
        parse_triple(format_triple(v)) == Some((v.major, v.minor, v.patch)),
{
    let a = decimal(v.major as nat);
    let b = decimal(v.minor as nat);
    let c = decimal(v.patch as nat);
    lemma_decimal_roundtrip(v.major as nat);
    lemma_decimal_roundtrip(v.minor as nat);
    lemma_decimal_roundtrip(v.patch as nat);
    lemma_decimal_delimiter_free(v.major as nat);
    lemma_decimal_delimiter_free(v.minor as nat);
    lemma_decimal_delimiter_free(v.patch as nat);
    let t = format_triple(v);
    let body = a + seq!['.'] + (b + seq!['.'] + c);
    assert(t.drop_first() =~= body);
    lemma_split_concat(a, '.', b + seq!['.'] + c, '.', '.');
    lemma_split_concat(b, '.', c, '.', '.');
    lemma_split_delimiter_free(c, '.', '.');
    let parts = split_spec(body, '.', '.');
    assert(parts =~= seq![a, b, c]);
    assert forall|i: int| 0 <= i < t.len() implies !is_delimiter(#[trigger] t[i], '-', '_') by {
        let la = a.len() as int;
        let lb = b.len() as int;
        if i == 0 {
        } else if i < 1 + la {
            assert(t[i] == a[i - 1]);
        } else if i == 1 + la {
        } else if i < 2 + la + lb {
            assert(t[i] == b[i - 2 - la]);
        } else if i == 2 + la + lb {
        } else {
            assert(t[i] == c[i - 3 - la - lb]);
        }
    }
}

/// A text whose first two pieces are the canonical texts of the triple and
/// of the marker of `v` is read as `v`, with the mono flavour set when more
/// pieces follow.
pub proof fn lemma_parse_pieces(s: Seq<char>, v: GodotVersion, more: Seq<Seq<char>>)
    requires
        split_spec(s, '-', '_') == seq![format_triple(v), format_testmark(v.testmark)] + more,
    ensures
        parse_version(s) == Some(GodotVersion { is_mono: more.len() > 0, ..v }),
{
    lemma_triple_roundtrip(v);
    lemma_testmark_roundtrip(v.testmark);
    let pieces = split_spec(s, '-', '_');
    assert(pieces.len() == 2 + more.len());
    assert(pieces[0] == format_triple(v));
    assert(pieces[1] == format_testmark(v.testmark));
}

/// The canonical text of `v` is cut into the text of its triple, the text
/// of its marker and, with the mono flavour, the word `mono`.
pub proof fn lemma_split_format(v: GodotVersion)
    ensures
        split_spec(format_version(v), '-', '_') == seq![
            format_triple(v),
            format_testmark(v.testmark),
        ] + if v.is_mono {
            seq![seq!['m', 'o', 'n', 'o']]
        } else {
            Seq::<Seq<char>>::empty()
        },
{
    let head = format_triple(v);
    let mark = format_testmark(v.testmark);
    lemma_triple_roundtrip(v);
    lemma_testmark_roundtrip(v.testmark);
    if v.is_mono {
        let mono = seq!['m', 'o', 'n', 'o'];
        let tail = mark + seq!['_'] + mono;
        assert("_mono"@ =~= seq!['_'] + mono) by {
            reveal_strlit("_mono");
        }
        assert(format_version(v) =~= head + seq!['-'] + tail);
        lemma_split_concat(head, '-', tail, '-', '_');
        lemma_split_concat(mark, '_', mono, '-', '_');
        lemma_split_delimiter_free(mono, '-', '_');
        assert(seq![head] + (seq![mark] + seq![mono]) =~= seq![head, mark] + seq![mono]);
    } else {
        assert(format_version(v) =~= head + seq!['-'] + mark);
        lemma_split_concat(head, '-', mark, '-', '_');
        lemma_split_delimiter_free(mark, '-', '_');
        assert(seq![head] + seq![mark] =~= seq![head, mark] + Seq::<Seq<char>>::empty());
    }
}

/// Reading the canonical text of a version gives that version back.
pub proof fn lemma_parse_format_roundtrip(v: GodotVersion)
    ensures
        parse_version(format_version(v)) == Some(v),
{
    lemma_split_format(v);
    if v.is_mono {
        lemma_parse_pieces(format_version(v), v, seq![seq!['m', 'o', 'n', 'o']]);
    } else {
        lemma_parse_pieces(format_version(v), v, Seq::<Seq<char>>::empty());
    }
}

/// A text always has at least one piece.
pub proof fn lemma_split_nonempty(s: Seq<char>, a: char, b: char)
    ensures
        split_spec(s, a, b).len() >= 1,
{
}

/// Whatever follows a second delimiter sets the mono flavour: the canonical
/// text of a version, then `-` or `_`, then any text at all, is read as the
/// same version with the flavour set.
pub proof fn lemma_third_piece_sets_mono(v: GodotVersion, d: char, rest: Seq<char>)
    requires
        d == '-' || d == '_',
    ensures
        parse_version(format_version(v) + seq![d] + rest) == Some(
            GodotVersion { is_mono: true, ..v },
        ),
{
    let head = format_triple(v);
    let mark = format_testmark(v.testmark);
    lemma_triple_roundtrip(v);
    lemma_testmark_roundtrip(v.testmark);
    let text = format_version(v) + seq![d] + rest;
    let last = split_spec(rest, '-', '_');
    lemma_split_nonempty(rest, '-', '_');
    if v.is_mono {
        let mono = seq!['m', 'o', 'n', 'o'];
        assert("_mono"@ =~= seq!['_'] + mono) by {
            reveal_strlit("_mono");
        }
        let end = mono + seq![d] + rest;
        let tail = mark + seq!['_'] + end;
        assert(text =~= head + seq!['-'] + tail);
        lemma_split_concat(head, '-', tail, '-', '_');
        lemma_split_concat(mark, '_', end, '-', '_');
        lemma_split_concat(mono, d, rest, '-', '_');
        let more = seq![mono] + last;
        assert(seq![head] + (seq![mark] + (seq![mono] + last)) =~= seq![head, mark] + more);
        lemma_parse_pieces(text, v, more);
    } else {
        let tail = mark + seq![d] + rest;
        assert(text =~= head + seq!['-'] + tail);
        lemma_split_concat(head, '-', tail, '-', '_');
        lemma_split_concat(mark, d, rest, '-', '_');
        assert(seq![head] + (seq![mark] + last) =~= seq![head, mark] + last);
        lemma_parse_pieces(text, v, last);
    }
}

impl TestMark {
    /// Reads a marker from its characters.
    pub fn from_chars(s: &Vec<char>) -> (r: Option<TestMark>)
        ensures
            r == parse_testmark(s@),
    {
        if let Some(rest) = strip_prefix(s, "alpha") {
            match parse_u8(&rest) {
                Some(n) => Some(TestMark::Alpha(n)),
                None => None,
            }
        } else if let Some(rest) = strip_prefix(s, "beta") {
            match parse_u8(&rest) {
                Some(n) => Some(TestMark::Beta(n)),
                None => None,
            }
        } else if let Some(rest) = strip_prefix(s, "rc") {
            match parse_u8(&rest) {
                Some(n) => Some(TestMark::Rc(n)),
                None => None,
            }
        } else {
            let stable = chars_of("stable");
            if same_text(s, &stable) {
                Some(TestMark::Stable)
            } else {
                None
            }
        }
    }

    /// Reads a marker from text. A text that writes no marker is handed back
    /// in the error.
    pub fn from_str(s: &str) -> (r: Result<TestMark, Error>)
        ensures
            match r {
                Ok(m) => parse_testmark(s@) == Some(m),
                Err(e) => {
                    &&& parse_testmark(s@) is None
                    &&& e matches Error::InvalidTestMark(text)
                    &&& text@ == s@
                },
            },
    {
        let chars = chars_of(s);
        match TestMark::from_chars(&chars) {
            Some(m) => Ok(m),
            None => Err(Error::InvalidTestMark(s.to_owned())),
        }
    }

    /// Appends the canonical text of the marker to `out`.
    pub fn write_to(&self, out: &mut String)
        ensures
            final(out)@ == old(out)@ + format_testmark(*self),
    {
        match self {
            TestMark::Stable => {
                out.append("stable");
            },
            TestMark::Alpha(n) => {
                out.append("alpha");
                push_decimal(out, *n);
            },
            TestMark::Beta(n) => {
                out.append("beta");
                push_decimal(out, *n);
            },
            TestMark::Rc(n) => {
                out.append("rc");
                push_decimal(out, *n);
            },
        }
        proof {
            assert(out@ =~= old(out)@ + format_testmark(*self));
        }
    }
}

/// Whether two character vectors hold the same text.
pub fn same_text(a: &Vec<char>, b: &Vec<char>) -> (same: bool)
    ensures
        same == (a@ == b@),
{
    if a.len() != b.len() {
        return false;
    }
    let mut i: usize = 0;
    while i < a.len()
        invariant
            0 <= i <= a.len(),
            a.len() == b.len(),
            forall|j: int| 0 <= j < i ==> a@[j] == b@[j],
        decreases a.len() - i,
    {
        if a[i] != b[i] {
            return false;
        }
        i += 1;
    }
    proof {
        assert(a@ =~= b@);
    }
    true
}

/// Reads a version triple from its characters.
pub fn triple_from_chars(s: &Vec<char>) -> (r: Option<(u8, u8, u8)>)
    ensures
        r == parse_triple(s@),
{
    match strip_prefix(s, "v") {
        None => {
            proof {
                reveal_strlit("v");
                if s@.len() > 0 && s@[0] == 'v' {
                    assert(s@.subrange(0, 1) =~= "v"@);
                }
            }
            None
        },
        Some(body) => {
            proof {
                reveal_strlit("v");
                assert(s@.subrange(0, 1)[0] == 'v');
                assert(body@ =~= s@.drop_first());
            }
            let parts = split(&body, '.', '.');
            if parts.len() != 3 {
                return None;
            }
            proof {
                assert(views(parts@)[0] == parts@[0]@);
                assert(views(parts@)[1] == parts@[1]@);
                assert(views(parts@)[2] == parts@[2]@);
            }
            let major = parse_u8(&parts[0]);
            let minor = parse_u8(&parts[1]);
            let patch = parse_u8(&parts[2]);
            match (major, minor, patch) {
                (Some(major), Some(minor), Some(patch)) => Some((major, minor, patch)),
                _ => None,
            }
        },
    }
}

impl GodotVersion {
    /// Reads a version identifier from text. A text that writes none is
    /// handed back in the error.
    pub fn from_str(s: &str) -> (r: Result<GodotVersion, Error>)
        ensures
            match r {
                Ok(v) => parse_version(s@) == Some(v),
                Err(e) => {
                    &&& parse_version(s@) is None
                    &&& e matches Error::CannotParseVersion(text)
                    &&& text@ == s@
                },
            },
    {
        let chars = chars_of(s);
        let pieces = split(&chars, '-', '_');
        if pieces.len() < 2 {
            return Err(Error::CannotParseVersion(s.to_owned()));
        }
        proof {
            assert(views(pieces@)[0] == pieces@[0]@);
            assert(views(pieces@)[1] == pieces@[1]@);
        }
        let triple = triple_from_chars(&pieces[0]);
        let testmark = TestMark::from_chars(&pieces[1]);
        match (triple, testmark) {
            (Some(triple), Some(testmark)) => Ok(
                GodotVersion {
                    major: triple.0,
                    minor: triple.1,
                    patch: triple.2,
                    testmark,
                    is_mono: pieces.len() > 2,
                },
            ),
            _ => Err(Error::CannotParseVersion(s.to_owned())),
        }
    }

    /// The canonical text of the version.
    pub fn to_string(&self) -> (text: String)
        ensures
            text@ == format_version(*self),
    {
        proof {
            reveal_strlit("v");
            reveal_strlit(".");
            reveal_strlit("-");
        }
        let mut out = "v".to_owned();
        push_decimal(&mut out, self.major);
        out.append(".");
        push_decimal(&mut out, self.minor);
        out.append(".");
        push_decimal(&mut out, self.patch);
        proof {
            assert(out@ =~= format_triple(*self));
        }
        out.append("-");
        self.testmark.write_to(&mut out);
        if self.is_mono {
            out.append("_mono");
        }
        proof {
            assert(out@ =~= format_version(*self));
        }
        out
    }

    /// The integer under which the version is filed in a table.
    pub fn key(&self) -> (k: u64)
        ensures
            k == key_spec(*self),
    {
        let (tag, number): (u64, u64) = match self.testmark {
            TestMark::Stable => (0, 0),
            TestMark::Alpha(n) => (1, n as u64),
            TestMark::Beta(n) => (2, n as u64),
            TestMark::Rc(n) => (3, n as u64),
        };
        let flavour: u64 = if self.is_mono {
            1
        } else {
            0
        };
        let triple: u64 = (self.major as u64 * 256 + self.minor as u64) * 256 + self.patch as u64;
        ((triple * 4 + tag) * 256 + number) * 2 + flavour
    }
}

impl std::str::FromStr for GodotVersion {
    type Err = Error;

    /// Reads a version identifier from text, as `GodotVersion::from_str`.
    fn from_str(s: &str) -> (r: Result<GodotVersion, Error>)
        ensures
            match r {
                Ok(v) => parse_version(s@) == Some(v),
                Err(e) => {
                    &&& parse_version(s@) is None
                    &&& e matches Error::CannotParseVersion(text)
                    &&& text@ == s@
                },
            },
    {
        GodotVersion::from_str(s)
    }
}

impl std::str::FromStr for TestMark {
    type Err = Error;

    /// Reads a marker from text, as `TestMark::from_str`.
    fn from_str(s: &str) -> (r: Result<TestMark, Error>)
        ensures
            match r {
                Ok(m) => parse_testmark(s@) == Some(m),
                Err(e) => {
                    &&& parse_testmark(s@) is None
                    &&& e matches Error::InvalidTestMark(text)
                    &&& text@ == s@
                },
            },
    {
        TestMark::from_str(s)
    }
}

} // verus!
