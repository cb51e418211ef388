//! Data sizes written with a binary unit (`B`, `KB`, `MB`, `GB`) and their
//! textual form, such as `500MB` or `60 kb`.
use vstd::prelude::*;
use vstd::string::StrSliceExecFns;

verus! {

/// A size in bytes, kibibytes, mebibytes or gibibytes.
#[derive(Debug, Clone, Copy, PartialEq, Eq, Structural)]
pub enum Size {
    Byte(usize),
    KB(usize),
    MB(usize),
    GB(usize),
}

/// Bytes in one kibibyte.
pub const KIB: usize = 1024;

impl Size {
    /// The number of bytes this size stands for, as a mathematical integer.
    pub open spec fn byte_count(self) -> nat {
        match self {
            Size::Byte(v) => v as nat,
            Size::KB(v) => 1024 * (v as nat),
            Size::MB(v) => 1024 * 1024 * (v as nat),
            Size::GB(v) => 1024 * 1024 * 1024 * (v as nat),
        }
    }

    /// The number of bytes; the count must fit in a `usize`.
    pub fn to_bytes(self) -> (r: usize)
        requires
            self.byte_count() <= usize::MAX,
        ensures
            r == self.byte_count(),
    {
        match self {
            Size::Byte(value) => value,
            Size::KB(value) => 1024 * value,
            Size::MB(value) => 1024 * 1024 * value,
            Size::GB(value) => 1024 * 1024 * 1024 * value,
        }
    }

    /// The number of bytes, or `None` when it does not fit in a `usize`.
    pub fn checked_bytes(self) -> (r: Option<usize>)
        ensures
            r == (if self.byte_count() <= usize::MAX {
                Some(self.byte_count() as usize)
            } else {
                None::<usize>
            }),
    {
        match self {
            Size::Byte(value) => Some(value),
            Size::KB(value) => 1024usize.checked_mul(value),
            Size::MB(value) => (1024usize * 1024).checked_mul(value),
            Size::GB(value) => (1024usize * 1024 * 1024).checked_mul(value),
        }
    }

    /// Reads a size from text: a decimal number, then a unit (`B`, `BYTE`,
    /// `K`, `KB`, `M`, `MB`, `G`, `GB`, or nothing for bytes) in any ASCII
    /// case, with white space around the unit ignored.
    pub fn parse(s: &str) -> (r: Result<Size, SizeError>)
        ensures
            r == parse_size(s@),
    {
        let n = s.unicode_len();
        let mut chars: Vec<char> = Vec::new();
        let mut i: usize = 0;
        while i < n
            invariant
                n == s@.len(),
                i <= n,
                chars@ == s@.take(i as int),
            decreases n - i,
        {
            chars.push(s.get_char(i));
            i = i + 1;
            assert(chars@ == s@.take(i as int));
        }
        assert(chars@ == s@);
        parse_chars(&chars)
    }
}

/// Why a text is not a size.
#[derive(Debug, Clone, Copy, PartialEq, Eq, Structural)]
pub enum SizeError {
    /// The text does not start with a decimal number that fits in a `usize`.
    InvalidNumber,
    /// The number is followed by something that is not a known unit.
    InvalidUnit,
}

impl SizeError {
    /// The text of the message for this error.
    pub open spec fn text(self) -> Seq<char> {
        match self {
            SizeError::InvalidNumber => "Invalid number format"@,
            SizeError::InvalidUnit => "Invalid unit (use B, KB, MB, GB)"@,
        }
    }

    /// The message the command line shows for this error.
    pub fn message(&self) -> (m: String)
        ensures
            m@ == self.text(),
    {
        match self {
            SizeError::InvalidNumber => "Invalid number format".to_owned(),
            SizeError::InvalidUnit => "Invalid unit (use B, KB, MB, GB)".to_owned(),
        }
    }
}

impl core::str::FromStr for Size {
    type Err = String;

    fn from_str(s: &str) -> (r: Result<Size, String>)
        ensures
            match parse_size(s@) {
                Ok(size) => r == Ok::<Size, String>(size),
                Err(e) => r matches Err(m) && m@ == e.text(),
            },
    {
        match Size::parse(s) {
            Ok(size) => Ok(size),
            Err(e) => Err(e.message()),
        }
    }
}

pub open spec fn is_ascii_digit(c: char) -> bool {
    '0' <= c && c <= '9'
}

pub open spec fn digit_value(c: char) -> nat {
    ((c as u32) - ('0' as u32)) as nat
}

/// The length of the longest prefix of ASCII digits.
pub open spec fn digit_prefix_len(s: Seq<char>) -> nat
    decreases s.len(),
{
    if s.len() == 0 || !is_ascii_digit(s[0]) {
        0
    } else {
        1 + digit_prefix_len(s.drop_first())
    }
}

/// The value of a sequence of decimal digits, most significant first.
pub open spec fn decimal_value(d: Seq<char>) -> nat
    decreases d.len(),
{
    if d.len() == 0 {
        0
    } else {
        decimal_value(d.drop_last()) * 10 + digit_value(d.last())
    }
}

/// `char::is_whitespace`: the Unicode `White_Space` property.
pub open spec fn is_white_space(c: char) -> bool {
    ||| ('\u{9}' <= c && c <= '\u{d}')
    ||| c == ' '
    ||| c == '\u{85}'
    ||| c == '\u{a0}'
    ||| c == '\u{1680}'
    ||| ('\u{2000}' <= c && c <= '\u{200a}')
    ||| c == '\u{2028}'
    ||| c == '\u{2029}'
    ||| c == '\u{202f}'
    ||| c == '\u{205f}'
    ||| c == '\u{3000}'
}

pub open spec fn trim_start(s: Seq<char>) -> Seq<char>
    decreases s.len(),
{
    if s.len() > 0 && is_white_space(s[0]) {
        trim_start(s.drop_first())
    } else {
        s
    }
}

pub open spec fn trim_end(s: Seq<char>) -> Seq<char>
    decreases s.len(),
{
    if s.len() > 0 && is_white_space(s.last()) {
        trim_end(s.drop_last())
    } else {
        s
    }
}

/// `str::trim`: white space removed from both ends.
pub open spec fn trim(s: Seq<char>) -> Seq<char> {
    trim_end(trim_start(s))
}

/// `c` is the ASCII upper-case letter `up` or its lower-case form.
pub open spec fn folds_to(c: char, up: char) -> bool {
    c == up || c as u32 == up as u32 + 32
}

/// `t` spells the upper-case word `word` in any ASCII case.
pub open spec fn spells(t: Seq<char>, word: Seq<char>) -> bool {
    t.len() == word.len() && forall|i: int| 0 <= i < t.len() ==> folds_to(t[i], word[i])
}

/// The size a unit word and a number make, if the word is a known unit.
pub open spec fn size_with_unit(unit: Seq<char>, n: usize) -> Option<Size> {
    if spells(unit, seq![]) || spells(unit, seq!['B']) || spells(unit, seq!['B', 'Y', 'T', 'E']) {
        Some(Size::Byte(n))
    } else if spells(unit, seq!['K']) || spells(unit, seq!['K', 'B']) {
        Some(Size::KB(n))
    } else if spells(unit, seq!['M']) || spells(unit, seq!['M', 'B']) {
        Some(Size::MB(n))
    } else if spells(unit, seq!['G']) || spells(unit, seq!['G', 'B']) {
        Some(Size::GB(n))
    } else {
        None
    }
}

/// What `Size::parse` gives for a text: the leading ASCII digits are the
/// number, the rest, trimmed, is the unit.
pub open spec fn parse_size(s: Seq<char>) -> Result<Size, SizeError> {
    let k = digit_prefix_len(s);
    let value = decimal_value(s.take(k as int));
    if k == 0 || value > usize::MAX {
        Err(SizeError::InvalidNumber)
    } else {
        match size_with_unit(trim(s.skip(k as int)), value as usize) {
            Some(size) => Ok(size),
            None => Err(SizeError::InvalidUnit),
        }
    }
}

proof fn lemma_digit_prefix_len(s: Seq<char>, k: int)
    requires
        0 <= k <= s.len(),
        forall|j: int| 0 <= j < k ==> is_ascii_digit(s[j]),
        k == s.len() || !is_ascii_digit(s[k]),
    ensures
        digit_prefix_len(s) == k,
    decreases k,
{
    if k > 0 {
        lemma_digit_prefix_len(s.drop_first(), k - 1);
    }
}

proof fn lemma_digit_prefix_at_least(s: Seq<char>, i: int)
    requires
        0 <= i <= s.len(),
        forall|j: int| 0 <= j < i ==> is_ascii_digit(s[j]),
    ensures
        i <= digit_prefix_len(s) <= s.len(),
    decreases s.len(),
{
    if s.len() > 0 {
        if i > 0 {
            lemma_digit_prefix_at_least(s.drop_first(), i - 1);
        } else {
            lemma_digit_prefix_at_least(s.drop_first(), 0);
        }
    }
}

proof fn lemma_decimal_value_grows(d: Seq<char>, i: int, j: int)
    requires
        0 <= i <= j <= d.len(),
    ensures
        decimal_value(d.take(i)) <= decimal_value(d.take(j)),
    decreases j - i,
{
    if i < j {
        lemma_decimal_value_grows(d, i, j - 1);
        assert(d.take(j).drop_last() == d.take(j - 1));
    }
}

proof fn lemma_trim_start(s: Seq<char>, a: int, lo: int)
    requires
        0 <= a <= lo <= s.len(),
        forall|j: int| a <= j < lo ==> is_white_space(s[j]),
        lo == s.len() || !is_white_space(s[lo]),
    ensures
        trim_start(s.subrange(a, s.len() as int)) == s.subrange(lo, s.len() as int),
    decreases lo - a,
{
    if a < lo {
        assert(s.subrange(a, s.len() as int).drop_first() == s.subrange(a + 1, s.len() as int));
        lemma_trim_start(s, a + 1, lo);
    }
}

proof fn lemma_trim_end(s: Seq<char>, lo: int, hi: int, b: int)
    requires
        0 <= lo <= hi <= b <= s.len(),
        forall|j: int| hi <= j < b ==> is_white_space(s[j]),
        hi == lo || !is_white_space(s[hi - 1]),
    ensures
        trim_end(s.subrange(lo, b)) == s.subrange(lo, hi),
    decreases b - hi,
{
    if hi < b {
        assert(s.subrange(lo, b).drop_last() == s.subrange(lo, b - 1));
        lemma_trim_end(s, lo, hi, b - 1);
    }
}

fn is_white_space_char(c: char) -> (r: bool)
    ensures
        r == is_white_space(c),
{
    ('\u{9}' <= c && c <= '\u{d}') || c == ' ' || c == '\u{85}' || c == '\u{a0}' || c
        == '\u{1680}' || ('\u{2000}' <= c && c <= '\u{200a}') || c == '\u{2028}' || c
        == '\u{2029}' || c == '\u{202f}' || c == '\u{205f}' || c == '\u{3000}'
}

/// Whether `s[lo..hi]` spells `word` in any ASCII case.
fn spells_word(s: &Vec<char>, lo: usize, hi: usize, word: &[char]) -> (r: bool)
    requires
        lo <= hi <= s@.len(),
        forall|i: int| 0 <= i < word@.len() ==> 'A' <= #[trigger] word@[i] <= 'Z',
    ensures
        r == spells(s@.subrange(lo as int, hi as int), word@),
{
    if hi - lo != word.len() {
        return false;
    }
    let ghost t = s@.subrange(lo as int, hi as int);
    let mut i: usize = 0;
    while i < word.len()
        invariant
            lo <= hi <= s@.len(),
            hi - lo == word@.len(),
            t == s@.subrange(lo as int, hi as int),
            forall|k: int| 0 <= k < word@.len() ==> 'A' <= #[trigger] word@[k] <= 'Z',
            i <= word@.len(),
            forall|k: int| 0 <= k < i ==> folds_to(#[trigger] t[k], word@[k]),
        decreases word@.len() - i,
    {
        let c = s[lo + i];
        let up = word[i];
        assert(c == t[i as int]);
        if !(c == up || (c as u32) == (up as u32) + 32) {
            return false;
        }
        i = i + 1;
    }
    true
}

fn parse_chars(s: &Vec<char>) -> (r: Result<Size, SizeError>)
    ensures
        r == parse_size(s@),
{
    let n = s.len();
    // The number: the longest run of leading ASCII digits.
    let mut k: usize = 0;
    let mut value: usize = 0;
    while k < n && '0' <= s[k] && s[k] <= '9'
        invariant
            n == s@.len(),
            k <= n,
            forall|j: int| 0 <= j < k ==> is_ascii_digit(s@[j]),
            value == decimal_value(s@.take(k as int)),
        decreases n - k,
    {
        let d = (s[k] as u32 - '0' as u32) as usize;
        assert(s@.take(k + 1).drop_last() == s@.take(k as int));
        if value > (usize::MAX - d) / 10 {
            proof {
                lemma_digit_prefix_at_least(s@, k + 1);
                lemma_decimal_value_grows(s@, k + 1, digit_prefix_len(s@) as int);
            }
            return Err(SizeError::InvalidNumber);
        }
        value = value * 10 + d;
        k = k + 1;
    }
    proof {
        lemma_digit_prefix_len(s@, k as int);
    }
    if k == 0 {
        return Err(SizeError::InvalidNumber);
    }
    // The unit: what follows the number, without surrounding white space.

    let mut lo: usize = k;
    while lo < n && is_white_space_char(s[lo])
        invariant
            n == s@.len(),
            k <= lo <= n,
            forall|j: int| k <= j < lo ==> is_white_space(s@[j]),
        decreases n - lo,
    {
        lo = lo + 1;
    }
    let mut hi: usize = n;
    while hi > lo && is_white_space_char(s[hi - 1])
        invariant
            n == s@.len(),
            lo <= hi <= n,
            forall|j: int| hi <= j < n ==> is_white_space(s@[j]),
        decreases hi - lo,
    {
        hi = hi - 1;
    }
    proof {
        lemma_trim_start(s@, k as int, lo as int);
        lemma_trim_end(s@, lo as int, hi as int, n as int);
        assert(s@.skip(k as int) == s@.subrange(k as int, n as int));
        assert(trim(s@.skip(k as int)) == s@.subrange(lo as int, hi as int));
    }
    let ghost unit = s@.subrange(lo as int, hi as int);
    let empty: [char; 0] = [];
    let b: [char; 1] = ['B'];
    let byte: [char; 4] = ['B', 'Y', 'T', 'E'];
    let kk: [char; 1] = ['K'];
    let kb: [char; 2] = ['K', 'B'];
    let m: [char; 1] = ['M'];
    let mb: [char; 2] = ['M', 'B'];
    let g: [char; 1] = ['G'];
    let gb: [char; 2] = ['G', 'B'];
    assert(empty@ == Seq::<char>::empty());
    assert(b@ == seq!['B']);
    assert(byte@ == seq!['B', 'Y', 'T', 'E']);
    assert(kk@ == seq!['K']);
    assert(kb@ == seq!['K', 'B']);
    assert(m@ == seq!['M']);
    assert(mb@ == seq!['M', 'B']);
    assert(g@ == seq!['G']);
    assert(gb@ == seq!['G', 'B']);
    if spells_word(s, lo, hi, &empty) || spells_word(s, lo, hi, &b) || spells_word(
        s,
        lo,
        hi,
        &byte,
    ) {
        Ok(Size::Byte(value))
    } else if spells_word(s, lo, hi, &kk) || spells_word(s, lo, hi, &kb) {
        Ok(Size::KB(value))
    } else if spells_word(s, lo, hi, &m) || spells_word(s, lo, hi, &mb) {
        Ok(Size::MB(value))
    } else if spells_word(s, lo, hi, &g) || spells_word(s, lo, hi, &gb) {
        Ok(Size::GB(value))
    } else {
        Err(SizeError::InvalidUnit)
    }
}

/// The ASCII digit for a value below 10.
pub open spec fn digit_char(d: nat) -> char {
    seq!['0', '1', '2', '3', '4', '5', '6', '7', '8', '9'][d as int]
}

/// The decimal text of a number, without leading zeros.
pub open spec fn decimal_text(n: nat) -> Seq<char>
    decreases n,
{
    if n < 10 {
        seq![digit_char(n)]
    } else {
        decimal_text(n / 10).push(digit_char(n % 10))
    }
}

/// The unit words, in upper case, that a size may be written with.
pub open spec fn is_unit_word(word: Seq<char>) -> bool {
    ||| word == Seq::<char>::empty()
    ||| word == seq!['B']
    ||| word == seq!['B', 'Y', 'T', 'E']
    ||| word == seq!['K']
    ||| word == seq!['K', 'B']
    ||| word == seq!['M']
    ||| word == seq!['M', 'B']
    ||| word == seq!['G']
    ||| word == seq!['G', 'B']
}

proof fn lemma_decimal_text(n: nat)
    ensures
        decimal_text(n).len() >= 1,
        forall|i: int| 0 <= i < decimal_text(n).len() ==> is_ascii_digit(#[trigger] decimal_text(n)[i]),
        decimal_value(decimal_text(n)) == n,
    decreases n,
{
    let m = n % 10;
    vstd::arithmetic::div_mod::lemma_fundamental_div_mod(n as int, 10);
    assert(is_ascii_digit(digit_char(m)) && digit_value(digit_char(m)) == m);
    if n >= 10 {
        lemma_decimal_text(n / 10);
        let d = decimal_text(n / 10);
        assert(decimal_text(n).drop_last() == d);
        assert(decimal_text(n).last() == digit_char(m));
        assert(decimal_value(decimal_text(n)) == decimal_value(d) * 10 + digit_value(digit_char(m)));
    } else {
        vstd::arithmetic::div_mod::lemma_small_mod(n, 10);
        assert(is_ascii_digit(digit_char(n)) && digit_value(digit_char(n)) == n);
        assert(decimal_text(n).drop_last() == Seq::<char>::empty());
        assert(decimal_value(decimal_text(n)) == decimal_value(Seq::<char>::empty()) * 10 + digit_value(digit_char(n)));
    }
}

/// A number written in decimal and followed by a unit word, in any ASCII
/// case, reads back as that number of that unit.
pub proof fn lemma_parse_number_and_unit(n: usize, unit: Seq<char>, word: Seq<char>)
    requires
        is_unit_word(word),
        spells(unit, word),
    ensures
        (word == Seq::<char>::empty() || word == seq!['B'] || word == seq!['B', 'Y', 'T', 'E'])
            ==> parse_size(decimal_text(n as nat) + unit) == Ok::<Size, SizeError>(Size::Byte(n)),
        (word == seq!['K'] || word == seq!['K', 'B']) ==> parse_size(decimal_text(n as nat) + unit)
            == Ok::<Size, SizeError>(Size::KB(n)),
        (word == seq!['M'] || word == seq!['M', 'B']) ==> parse_size(decimal_text(n as nat) + unit)
            == Ok::<Size, SizeError>(Size::MB(n)),
        (word == seq!['G'] || word == seq!['G', 'B']) ==> parse_size(decimal_text(n as nat) + unit)
            == Ok::<Size, SizeError>(Size::GB(n)),
{
    let d = decimal_text(n as nat);
    let s = d + unit;
    lemma_decimal_text(n as nat);
    assert forall|i: int| 0 <= i < unit.len() implies !is_ascii_digit(#[trigger] unit[i])
        && !is_white_space(unit[i]) by {
        assert(folds_to(unit[i], word[i]));
        assert('A' <= word[i] <= 'Z');
    }
    assert forall|j: int| 0 <= j < d.len() implies is_ascii_digit(s[j]) by {
        assert(s[j] == d[j]);
    }
    if unit.len() > 0 {
        assert(s[d.len() as int] == unit[0]);
    }
    lemma_digit_prefix_len(s, d.len() as int);
    assert(s.take(d.len() as int) == d);
    assert(s.skip(d.len() as int) == unit);
    assert(trim_start(unit) == unit);
    assert(trim_end(unit) == unit);
    assert(trim(unit) == unit);
}

} // verus!
