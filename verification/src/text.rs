//! Text helpers of std with their documented behaviour stated as contracts.

use vstd::prelude::*;
use vstd::utf8::{valid_utf8, decode_utf8, encode_utf8, encode_scalar, encode_utf8_decode_utf8};
use crate::bytes::push_slice;
use vstd::string::StringSliceAdditionalSpecFns;

verus! {

/// Whether `c` has the Unicode `White_Space` property, which
/// `char::is_whitespace` (and so `str::trim`) tests.
pub open spec fn is_unicode_whitespace(c: char) -> bool {
    ||| '\t' <= c <= '\r'
    ||| c == ' '
    ||| c == '\u{85}'
    ||| c == '\u{A0}'
    ||| c == '\u{1680}'
    ||| '\u{2000}' <= c <= '\u{200A}'
    ||| c == '\u{2028}'
    ||| c == '\u{2029}'
    ||| c == '\u{202F}'
    ||| c == '\u{205F}'
    ||| c == '\u{3000}'
}

/// `s` without leading whitespace.
pub open spec fn trim_start_spec(s: Seq<char>) -> Seq<char>
    decreases s.len(),
{
    if s.len() > 0 && is_unicode_whitespace(s[0]) {
        trim_start_spec(s.drop_first())
    } else {
        s
    }
}

/// `s` without trailing whitespace.
pub open spec fn trim_end_spec(s: Seq<char>) -> Seq<char>
    decreases s.len(),
{
    if s.len() > 0 && is_unicode_whitespace(s.last()) {
        trim_end_spec(s.drop_last())
    } else {
        s
    }
}

/// `s` without leading and trailing whitespace.
pub open spec fn trim_spec(s: Seq<char>) -> Seq<char> {
    trim_end_spec(trim_start_spec(s))
}

/// Whether every character of `s` is an ASCII digit.
pub open spec fn all_ascii_digits(s: Seq<char>) -> bool {
    forall|i: int| 0 <= i < s.len() ==> '0' <= #[trigger] s[i] <= '9'
}

/// The number that the decimal digits `s` spell.
pub open spec fn decimal_value(s: Seq<char>) -> int
    decreases s.len(),
{
    if s.len() == 0 {
        0
    } else {
        decimal_value(s.drop_last()) * 10 + (s.last() as int - '0' as int)
    }
}

/// What `str::parse::<i32>` gives: an optional `+` or `-` sign followed by at
/// least one ASCII digit and nothing else, whose value fits in an `i32`.
pub open spec fn parse_i32_spec(s: Seq<char>) -> Option<i32> {
    let signed = s.len() > 0 && (s[0] == '-' || s[0] == '+');
    let negative = s.len() > 0 && s[0] == '-';
    let digits = if signed {
        s.drop_first()
    } else {
        s
    };
    let v = if negative {
        -decimal_value(digits)
    } else {
        decimal_value(digits)
    };
    if digits.len() == 0 || !all_ascii_digits(digits) || v < i32::MIN || v > i32::MAX {
        None
    } else {
        Some(v as i32)
    }
}

/// What `String::from_utf8_lossy` gives for `bytes`: their text, with every
/// invalid sequence replaced by U+FFFD.
pub uninterp spec fn utf8_lossy(bytes: Seq<u8>) -> Seq<char>;

/// `std::str::from_utf8`: the text of `bytes` when they are valid UTF-8.
#[verifier::external_body]
pub(crate) fn utf8_str(bytes: &[u8]) -> (r: Option<&str>)
    ensures
        r is Some <==> valid_utf8(bytes@),
        r matches Some(s) ==> s@ == decode_utf8(bytes@),
{
    std::str::from_utf8(bytes).ok()
}

/// `str::trim`: `s` without leading and trailing whitespace.
#[verifier::external_body]
pub(crate) fn trim_str(s: &str) -> (r: &str)
    ensures
        r@ == trim_spec(s@),
{
    s.trim()
}

/// `str::trim_end`: `s` without trailing whitespace.
#[verifier::external_body]
pub(crate) fn trim_end_str(s: &str) -> (r: &str)
    ensures
        r@ == trim_end_spec(s@),
{
    s.trim_end()
}

/// The characters of `s` before its first `c` (all of them when there is none).
pub open spec fn before_char(s: Seq<char>, c: char) -> Seq<char>
    decreases s.len(),
{
    if s.len() == 0 {
        s
    } else if s[0] == c {
        Seq::empty()
    } else {
        seq![s[0]] + before_char(s.drop_first(), c)
    }
}

/// The first piece of `str::split(';')`: the text before the first `;`.
#[verifier::external_body]
pub(crate) fn before_semicolon(s: &str) -> (r: &str)
    ensures
        r@ == before_char(s@, ';'),
{
    s.split(';').next().unwrap_or("")
}

/// `c` with an ASCII lowercase letter made uppercase.
pub open spec fn ascii_upper(c: char) -> char {
    if 'a' <= c <= 'z' {
        ((c as u32) - 32) as char
    } else {
        c
    }
}

/// `str::to_ascii_uppercase`: every ASCII lowercase letter made uppercase.
#[verifier::external_body]
pub(crate) fn ascii_uppercase(s: &str) -> (r: String)
    ensures
        r@ == Seq::new(s@.len(), |i: int| ascii_upper(s@[i])),
{
    s.to_ascii_uppercase()
}

/// `str::parse::<i32>`, with the error dropped.
#[verifier::external_body]
pub(crate) fn parse_i32(s: &str) -> (r: Option<i32>)
    ensures
        r == parse_i32_spec(s@),
{
    s.parse::<i32>().ok()
}

/// `String::from_utf8_lossy`, made into an owned string. Valid UTF-8 comes
/// back unchanged; other input as `utf8_lossy` names it.
#[verifier::external_body]
pub(crate) fn lossy_string(bytes: &[u8]) -> (s: String)
    ensures
        s@ == utf8_lossy(bytes@),
        valid_utf8(bytes@) ==> s@ == decode_utf8(bytes@),
{
    String::from_utf8_lossy(bytes).into_owned()
}

/// Whether two strings are equal, compared byte by byte.
pub fn str_eq(a: &str, b: &str) -> (r: bool)
    ensures
        r == (a@ == b@),
{
    let x = a.as_bytes();
    let y = b.as_bytes();
    proof {
        encode_utf8_decode_utf8(a@);
        encode_utf8_decode_utf8(b@);
        if a@ == b@ {
            assert(x@ == y@);
        }
    }
    if x.len() != y.len() {
        return false;
    }
    let mut i: usize = 0;
    while i < x.len()
        invariant
            i <= x@.len(),
            x@.len() == y@.len(),
            a@ == b@ ==> x@ == y@,
            forall|j: int| 0 <= j < i ==> x@[j] == y@[j],
        decreases x@.len() - i,
    {
        if x[i] != y[i] {
            return false;
        }
        i = i + 1;
    }
    assert(x@ =~= y@);
    true
}

/// The decimal digits of `n` as text, most significant first.
pub open spec fn decimal_chars(n: nat) -> Seq<char>
    decreases n,
{
    if n < 10 {
        seq![((48 + n) as u8) as char]
    } else {
        decimal_chars(n / 10).push(((48 + n % 10) as u8) as char)
    }
}

/// UTF-8 encoding distributes over concatenation.
pub proof fn lemma_encode_utf8_concat(a: Seq<char>, b: Seq<char>)
    ensures
        encode_utf8(a + b) == encode_utf8(a) + encode_utf8(b),
    decreases a.len(),
{
    if a.len() == 0 {
        assert(a + b =~= b);
        assert(encode_utf8(a) =~= Seq::<u8>::empty());
        assert(encode_utf8(a) + encode_utf8(b) =~= encode_utf8(b));
    } else {
        assert((a + b)[0] == a[0]);
        assert((a + b).drop_first() =~= a.drop_first() + b);
        lemma_encode_utf8_concat(a.drop_first(), b);
        assert(encode_utf8(a + b) =~= encode_utf8(a) + encode_utf8(b));
    }
}

/// Text built up piece by piece, kept as its UTF-8 bytes.
pub struct TextBuf {
    bytes: Vec<u8>,
    chars: Ghost<Seq<char>>,
}

impl View for TextBuf {
    type V = Seq<char>;

    closed spec fn view(&self) -> Seq<char> {
        self.chars@
    }
}

impl TextBuf {
    /// The bytes are the encoding of the text.
    pub closed spec fn wf(&self) -> bool {
        self.bytes@ == encode_utf8(self.chars@)
    }

    pub fn new() -> (t: Self)
        ensures
            t.wf(),
            t@ == Seq::<char>::empty(),
    {
        let t = TextBuf { bytes: Vec::new(), chars: Ghost(Seq::empty()) };
        assert(t.bytes@ =~= encode_utf8(Seq::<char>::empty()));
        t
    }

    /// Appends `s`.
    pub fn push_str(&mut self, s: &str)
        requires
            old(self).wf(),
        ensures
            final(self).wf(),
            final(self)@ == old(self)@ + s@,
    {
        let b = s.as_bytes();
        push_slice(&mut self.bytes, b);
        proof {
            lemma_encode_utf8_concat(self.chars@, s@);
            self.chars = Ghost(self.chars@ + s@);
        }
    }

    /// Appends `c`.
    pub fn push_char(&mut self, c: char)
        requires
            old(self).wf(),
        ensures
            final(self).wf(),
            final(self)@ == old(self)@.push(c),
    {
        let v = c as u32;
        if v <= 0x7F {
            self.bytes.push((v & 0x7F) as u8);
        } else if v <= 0x7FF {
            self.bytes.push(0xC0 | ((v >> 6) & 0x1F) as u8);
            self.bytes.push(0x80 | (v & 0x3F) as u8);
        } else if v <= 0xFFFF {
            self.bytes.push(0xE0 | ((v >> 12) & 0x0F) as u8);
            self.bytes.push(0x80 | ((v >> 6) & 0x3F) as u8);
            self.bytes.push(0x80 | (v & 0x3F) as u8);
        } else {
            self.bytes.push(0xF0 | ((v >> 18) & 0x7) as u8);
            self.bytes.push(0x80 | ((v >> 12) & 0x3F) as u8);
            self.bytes.push(0x80 | ((v >> 6) & 0x3F) as u8);
            self.bytes.push(0x80 | (v & 0x3F) as u8);
        }
        proof {
            let one: Seq<char> = seq![c];
            assert(one.drop_first() =~= Seq::<char>::empty());
            assert(one[0] == c);
            assert(encode_utf8(Seq::<char>::empty()) =~= Seq::<u8>::empty());
            assert(encode_utf8(one) == encode_scalar(c as u32) + encode_utf8(one.drop_first()));
            assert(encode_utf8(one) =~= encode_scalar(c as u32));
            lemma_encode_utf8_concat(self.chars@, one);
            assert(self.chars@.push(c) =~= self.chars@ + one);
            self.chars = Ghost(self.chars@.push(c));
            assert(self.bytes@ =~= encode_utf8(self.chars@));
        }
    }

    /// Appends the decimal digits of `n`.
    pub fn push_decimal(&mut self, n: u64)
        requires
            old(self).wf(),
        ensures
            final(self).wf(),
            final(self)@ == old(self)@ + decimal_chars(n as nat),
        decreases n,
    {
        if n >= 10 {
            self.push_decimal(n / 10);
        }
        let d = (n % 10) as u8;
        self.push_char((48 + d) as char);
        assert(final(self)@ =~= old(self)@ + decimal_chars(n as nat));
    }

    /// The text as a `String`.
    pub fn into_string(self) -> (s: String)
        requires
            self.wf(),
        ensures
            s@ == self@,
    {
        proof {
            vstd::utf8::encode_utf8_valid_utf8(self.chars@);
            vstd::utf8::encode_utf8_decode_utf8(self.chars@);
        }
        lossy_string(self.bytes.as_slice())
    }
}

} // verus!
