//! Size strings: an unsigned decimal magnitude followed by an optional
//! binary unit letter (`K`, `M` or `G`, in either case).
//!
//! The last character of a size string is taken for a unit only when it is
//! not a decimal digit, so `4096` is four thousand and ninety-six bytes and
//! `4096K` is four mebibytes. The magnitude is read as the standard library
//! reads an unsigned integer: one or more ASCII digits, optionally preceded
//! by a single `+`, with a value that fits in `usize`.

use vstd::prelude::*;
use vstd::std_specs::iter::IteratorSpec;

verus! {

/// Bytes in a kibibyte.
pub const KIB: usize = 1024;

/// Bytes in a mebibyte.
pub const MIB: usize = 1048576;

/// Bytes in a gibibyte.
pub const GIB: usize = 1073741824;

/// Why a size string was turned down.
#[derive(Clone, Copy, Debug, PartialEq, Eq)]
pub enum ParseError {
    /// The magnitude is not an unsigned decimal number, or the size it
    /// stands for does not fit in `usize`.
    InvalidNumber,
    /// The magnitude is fine but the trailing character is no known unit.
    InvalidUnit,
}

/// The unit a magnitude is counted in. Every unit is a power of 1024 bytes.
#[derive(Clone, Copy, Debug, PartialEq, Eq)]
pub enum Unit {
    Byte,
    Kilo,
    Mega,
    Giga,
}

/// A parsed size: so many of such a unit.
#[derive(Clone, Copy, Debug, PartialEq, Eq)]
pub struct SizeSpec {
    pub magnitude: usize,
    pub unit: Unit,
}

/// `c` is one of the ten ASCII decimal digits.
pub open spec fn is_digit(c: char) -> bool {
    '0' as u32 <= c as u32 <= '9' as u32
}

/// The number a decimal digit stands for.
pub open spec fn digit_value(c: char) -> nat {
    (c as u32 - '0' as u32) as nat
}

/// Every character of `s` is a decimal digit.
pub open spec fn all_digits(s: Seq<char>) -> bool {
    forall|i: int| 0 <= i < s.len() ==> is_digit(#[trigger] s[i])
}

/// The number written by the digits `s`, most significant first.
pub open spec fn decimal_value(s: Seq<char>) -> nat
    decreases s.len(),
{
    if s.len() == 0 {
        0
    } else {
        decimal_value(s.drop_last()) * 10 + digit_value(s.last())
    }
}

/// The digit character for a number below ten.
pub open spec fn digit_char(d: nat) -> char {
    ('0' as u32 + d as u32) as char
}

/// The usual decimal spelling of `n`: no sign, no leading zeros.
pub open spec fn decimal_digits(n: nat) -> Seq<char>
    decreases n,
{
    if n < 10 {
        seq![digit_char(n)]
    } else {
        decimal_digits(n / 10).push(digit_char(n % 10))
    }
}

/// `s` without its leading `+`, if it has one.
pub open spec fn unsigned_part(s: Seq<char>) -> Seq<char> {
    if s.len() > 0 && s[0] == '+' {
        s.skip(1)
    } else {
        s
    }
}

/// `s` is a well-formed magnitude: an optional `+`, then at least one digit,
/// nothing else, and a value within `usize`.
pub open spec fn is_magnitude(s: Seq<char>) -> bool {
    let digits = unsigned_part(s);
    &&& digits.len() > 0
    &&& all_digits(digits)
    &&& decimal_value(digits) <= usize::MAX
}

/// The value of the magnitude `s`.
pub open spec fn magnitude_value(s: Seq<char>) -> nat {
    decimal_value(unsigned_part(s))
}

/// The unit that the letter `c` names, if any.
pub open spec fn unit_of_letter(c: char) -> Option<Unit> {
    if c == 'K' || c == 'k' {
        Some(Unit::Kilo)
    } else if c == 'M' || c == 'm' {
        Some(Unit::Mega)
    } else if c == 'G' || c == 'g' {
        Some(Unit::Giga)
    } else {
        None
    }
}

/// What a size string says, before the size is worked out in bytes.
///
/// A string that ends in a digit is a magnitude in bytes. Any other
/// non-empty string is a magnitude followed by one unit character; the
/// magnitude is judged first, so a bad magnitude wins over a bad unit.
pub open spec fn size_spec_of(s: Seq<char>) -> Result<SizeSpec, ParseError> {
    if s.len() == 0 {
        Err(ParseError::InvalidNumber)
    } else if is_digit(s.last()) {
        if is_magnitude(s) {
            Ok(SizeSpec { magnitude: magnitude_value(s) as usize, unit: Unit::Byte })
        } else {
            Err(ParseError::InvalidNumber)
        }
    } else if !is_magnitude(s.drop_last()) {
        Err(ParseError::InvalidNumber)
    } else {
        match unit_of_letter(s.last()) {
            Some(unit) => Ok(
                SizeSpec { magnitude: magnitude_value(s.drop_last()) as usize, unit },
            ),
            None => Err(ParseError::InvalidUnit),
        }
    }
}

/// The byte count a size string stands for. A size too large for `usize`
/// is reported as an invalid number.
pub open spec fn parse_size(s: Seq<char>) -> Result<usize, ParseError> {
    match size_spec_of(s) {
        Ok(size) => if size.spec_bytes() <= usize::MAX {
            Ok(size.spec_bytes() as usize)
        } else {
            Err(ParseError::InvalidNumber)
        },
        Err(e) => Err(e),
    }
}

impl ParseError {
    /// The text shown to the user for this error.
    pub open spec fn spec_message(self) -> Seq<char> {
        match self {
            ParseError::InvalidNumber => "Invalid number format"@,
            ParseError::InvalidUnit => "Invalid unit. Use G, M, K or leave unit empty"@,
        }
    }

    /// The text shown to the user for this error.
    pub fn message(&self) -> (text: &'static str)
        ensures
            text@ == self.spec_message(),
    {
        match self {
            ParseError::InvalidNumber => "Invalid number format",
            ParseError::InvalidUnit => "Invalid unit. Use G, M, K or leave unit empty",
        }
    }
}

impl Unit {
    /// How many bytes one of this unit is.
    pub open spec fn spec_multiplier(self) -> nat {
        match self {
            Unit::Byte => 1,
            Unit::Kilo => 1024,
            Unit::Mega => 1024 * 1024,
            Unit::Giga => 1024 * 1024 * 1024,
        }
    }

    /// How many bytes one of this unit is.
    pub fn multiplier(&self) -> (m: usize)
        ensures
            m == self.spec_multiplier(),
    {
        match self {
            Unit::Byte => 1,
            Unit::Kilo => KIB,
            Unit::Mega => MIB,
            Unit::Giga => GIB,
        }
    }

    /// The unit named by a suffix letter, in either case; `None` for any
    /// other character.
    pub fn from_letter(c: char) -> (unit: Option<Unit>)
        ensures
            unit == unit_of_letter(c),
    {
        if c == 'K' || c == 'k' {
            Some(Unit::Kilo)
        } else if c == 'M' || c == 'm' {
            Some(Unit::Mega)
        } else if c == 'G' || c == 'g' {
            Some(Unit::Giga)
        } else {
            None
        }
    }
}

impl SizeSpec {
    /// The size in bytes, as a mathematical integer.
    pub open spec fn spec_bytes(self) -> nat {
        self.magnitude as nat * self.unit.spec_multiplier()
    }

    /// The size in bytes, or `None` when it does not fit in `usize`.
    pub fn bytes(&self) -> (count: Option<usize>)
        ensures
            count == (if self.spec_bytes() <= usize::MAX {
                Some(self.spec_bytes() as usize)
            } else {
                None
            }),
    {
        let m: usize = self.unit.multiplier();
        if self.magnitude > usize::MAX / m {
            assert(self.magnitude as nat * m as nat > usize::MAX) by (nonlinear_arith)
                requires
                    m > 0,
                    self.magnitude as nat > usize::MAX as nat / m as nat,
            ;
            None
        } else {
            assert(self.magnitude as nat * m as nat <= usize::MAX) by (nonlinear_arith)
                requires
                    m > 0,
                    self.magnitude as nat <= usize::MAX as nat / m as nat,
            ;
            Some(self.magnitude * m)
        }
    }

    /// Reads a size string into its magnitude and unit.
    pub fn parse(text: &str) -> (parsed: Result<SizeSpec, ParseError>)
        ensures
            parsed == size_spec_of(text@),
    {
        let chars = collect_chars(text);
        let n: usize = chars.len();
        if n == 0 {
            return Err(ParseError::InvalidNumber);
        }
        let last: char = chars[n - 1];
        let code: u32 = last as u32;
        assert(chars@.take(n as int) =~= chars@);
        assert(chars@.take(n - 1) =~= chars@.drop_last());
        if '0' as u32 <= code && code <= '9' as u32 {
            match parse_magnitude(&chars, n) {
                Some(magnitude) => Ok(SizeSpec { magnitude, unit: Unit::Byte }),
                None => Err(ParseError::InvalidNumber),
            }
        } else {
            match parse_magnitude(&chars, n - 1) {
                None => Err(ParseError::InvalidNumber),
                Some(magnitude) => match Unit::from_letter(last) {
                    Some(unit) => Ok(SizeSpec { magnitude, unit }),
                    None => Err(ParseError::InvalidUnit),
                },
            }
        }
    }
}

/// The characters of `text`, in order, as a vector that can be indexed.
pub fn collect_chars(text: &str) -> (chars: Vec<char>)
    ensures
        chars@ == text@,
{
    broadcast use vstd::string::axiom_spec_iter, vstd::string::next_postcondition;

    let mut chars: Vec<char> = Vec::new();
    let mut rest = text.chars();
    loop
        invariant
            rest.obeys_prophetic_iter_laws(),
            rest.decrease() is Some,
            chars@ + rest.remaining() == text@,
        decreases rest.decrease()->0,
    {
        let ghost before = rest.remaining();
        match rest.next() {
            Some(c) => {
                assert(chars@.push(c) + before.drop_first() =~= chars@ + before);
                chars.push(c);
            },
            None => {
                assert(chars@ + before =~= chars@);
                return chars;
            },
        }
    }
}

/// The value of a digit string never shrinks when digits are appended.
pub proof fn lemma_decimal_value_prefix(s: Seq<char>, k: int)
    requires
        0 <= k <= s.len(),
    ensures
        decimal_value(s.take(k)) <= decimal_value(s),
    decreases s.len() - k,
{
    if k == s.len() {
        assert(s.take(k) =~= s);
    } else {
        lemma_decimal_value_prefix(s.drop_last(), k);
        assert(s.drop_last().take(k) =~= s.take(k));
    }
}

/// Reads the first `end` characters of `chars` as a magnitude.
///
/// Returns the value when they form one, and `None` otherwise: when there
/// is no digit, when a character is out of place, or when the value is
/// beyond `usize`.
pub fn parse_magnitude(chars: &Vec<char>, end: usize) -> (value: Option<usize>)
    requires
        end <= chars.len(),
    ensures
        value == (if is_magnitude(chars@.take(end as int)) {
            Some(magnitude_value(chars@.take(end as int)) as usize)
        } else {
            None
        }),
{
    let start: usize = if end > 0 && chars[0] == '+' { 1 } else { 0 };
    let ghost digits = unsigned_part(chars@.take(end as int));
    assert(digits =~= chars@.subrange(start as int, end as int));
    if start == end {
        return None;
    }
    let mut value: usize = 0;
    let mut i: usize = start;
    while i < end
        invariant
            start <= i <= end <= chars.len(),
            digits == unsigned_part(chars@.take(end as int)),
            digits == chars@.subrange(start as int, end as int),
            all_digits(digits.take(i - start)),
            decimal_value(digits.take(i - start)) == value,
        decreases end - i,
    {
        let c: char = chars[i];
        let code: u32 = c as u32;
        assert(digits[i - start] == c);
        if code < '0' as u32 || code > '9' as u32 {
            return None;
        }
        let d: usize = (code - '0' as u32) as usize;
        proof {
            let next = digits.take(i - start + 1);
            assert(next.drop_last() =~= digits.take(i - start));
            assert(next.last() == c);
            assert(decimal_value(next) == value * 10 + d);
            lemma_decimal_value_prefix(digits, i - start + 1);
        }
        if value > (usize::MAX - d) / 10 {
            return None;
        }
        value = value * 10 + d;
        i += 1;
    }
    assert(digits.take(i - start) =~= digits);
    Some(value)
}

/// Turns a size string into a byte count.
///
/// `Ok` exactly for a well-formed magnitude, alone or followed by one of
/// the unit letters, whose size in bytes fits in `usize`.
pub fn parse_size_with_unit(size_str: &str) -> (bytes: Result<usize, ParseError>)
    ensures
        bytes == parse_size(size_str@),
{
    match SizeSpec::parse(size_str) {
        Ok(size) => match size.bytes() {
            Some(count) => Ok(count),
            None => Err(ParseError::InvalidNumber),
        },
        Err(e) => Err(e),
    }
}

} // verus!
