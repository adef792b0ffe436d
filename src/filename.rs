//! Segment file names: a generation number written as at least sixteen
//! zero-padded decimal digits, followed by the `.log` extension.
use vstd::prelude::*;
use vstd::string::*;
use crate::error::KvsError;

verus! {

/// Number of digits a generation is padded to in a segment file name.
pub const NAME_WIDTH: u64 = 16;

pub open spec fn is_digit(c: char) -> bool {
    '0' <= c && c <= '9'
}

pub open spec fn digit_value(c: char) -> nat {
    ((c as int) - ('0' as int)) as nat
}

pub open spec fn digit_char(d: nat) -> char
    recommends
        d < 10,
{
    ((d + ('0' as nat)) as u32) as char
}

/// Value of a string of decimal digits, most significant first.
pub open spec fn digits_value(s: Seq<char>) -> nat
    decreases s.len(),
{
    if s.len() == 0 {
        0
    } else {
        digits_value(s.drop_last()) * 10 + digit_value(s.last())
    }
}

pub open spec fn all_digits(s: Seq<char>) -> bool {
    forall|i: int| 0 <= i < s.len() ==> is_digit(#[trigger] s[i])
}

/// `s` without its leading `+`, if it has one.
pub open spec fn unsigned_part(s: Seq<char>) -> Seq<char> {
    if s.len() > 0 && s[0] == '+' {
        s.drop_first()
    } else {
        s
    }
}

/// What `u64::from_str` accepts: an optional `+`, then one or more decimal
/// digits whose value fits in a `u64`.
pub open spec fn parse_u64(s: Seq<char>) -> Option<u64> {
    let d = unsigned_part(s);
    if d.len() > 0 && all_digits(d) && digits_value(d) <= u64::MAX {
        Some(digits_value(d) as u64)
    } else {
        None
    }
}

/// Shortest decimal writing of `n`.
pub open spec fn decimal(n: nat) -> Seq<char>
    decreases n,
{
    if n < 10 {
        seq![digit_char(n)]
    } else {
        decimal(n / 10).push(digit_char(n % 10))
    }
}

/// Decimal writing of `n`, padded with leading zeros to the name width.
pub open spec fn padded(n: nat) -> Seq<char> {
    let d = decimal(n);
    if d.len() < NAME_WIDTH {
        Seq::new((NAME_WIDTH - d.len()) as nat, |i: int| '0') + d
    } else {
        d
    }
}

/// File name of the segment that holds generation `gen`.
pub open spec fn segment_name(gen: nat) -> Seq<char> {
    padded(gen) + seq!['.', 'l', 'o', 'g']
}

/// Generation named by a segment file name: the part before a final
/// `.log`, read as `u64::from_str` reads it.
pub open spec fn generation_of(name: Seq<char>) -> Option<u64> {
    let n = name.len();
    if n >= 4 && name.subrange(n - 4, n as int) == seq!['.', 'l', 'o', 'g'] {
        parse_u64(name.subrange(0, n - 4))
    } else {
        None
    }
}

proof fn lemma_digits_value_prefix_grows(s: Seq<char>, i: int, j: int)
    requires
        0 <= i <= j <= s.len(),
        all_digits(s),
    ensures
        digits_value(s.subrange(0, i)) <= digits_value(s.subrange(0, j)),
    decreases j - i,
{
    if i < j {
        lemma_digits_value_prefix_grows(s, i, j - 1);
        assert(s.subrange(0, j).drop_last() =~= s.subrange(0, j - 1));
    }
}

proof fn lemma_decimal_len(n: nat)
    ensures
        1 <= decimal(n).len() <= 20 || n > u64::MAX,
        decimal(n).len() >= 1,
    decreases n,
{
    if n >= 10 {
        lemma_decimal_len(n / 10);
        if n <= u64::MAX {
            lemma_decimal_len_bound(n);
        }
    }
}

proof fn lemma_decimal_len_bound(n: nat)
    requires
        n <= u64::MAX,
    ensures
        decimal(n).len() <= 20,
    decreases n,
{
    if n >= 10 {
        reveal_with_fuel(pow10, 20);
        lemma_decimal_len_small(n / 10, 19);
    }
}

proof fn lemma_decimal_len_small(n: nat, k: nat)
    requires
        k >= 1,
        n < pow10(k),
    ensures
        decimal(n).len() <= k,
    decreases n,
{
    if n >= 10 {
        assert(k >= 2) by {
            if k == 1 {
                reveal_with_fuel(pow10, 2);
            }
        }
        assert(n / 10 < pow10((k - 1) as nat)) by {
            assert(pow10(k) == 10 * pow10((k - 1) as nat));
        }
        lemma_decimal_len_small(n / 10, (k - 1) as nat);
    }
}

pub open spec fn pow10(k: nat) -> nat
    decreases k,
{
    if k == 0 {
        1
    } else {
        10 * pow10((k - 1) as nat)
    }
}

/// The one-character string holding the digit `d`.
fn digit_str(d: u64) -> (r: &'static str)
    requires
        d < 10,
    ensures
        r@ == seq![digit_char(d as nat)],
{
    proof {
        reveal_strlit("0");
        reveal_strlit("1");
        reveal_strlit("2");
        reveal_strlit("3");
        reveal_strlit("4");
        reveal_strlit("5");
        reveal_strlit("6");
        reveal_strlit("7");
        reveal_strlit("8");
        reveal_strlit("9");
    }
    if d == 0 {
        "0"
    } else if d == 1 {
        "1"
    } else if d == 2 {
        "2"
    } else if d == 3 {
        "3"
    } else if d == 4 {
        "4"
    } else if d == 5 {
        "5"
    } else if d == 6 {
        "6"
    } else if d == 7 {
        "7"
    } else if d == 8 {
        "8"
    } else {
        "9"
    }
}

/// Appends the decimal writing of `n` to `out`.
fn push_decimal(out: &mut String, n: u64)
    ensures
        final(out)@ == old(out)@ + decimal(n as nat),
    decreases n,
{
    if n >= 10 {
        push_decimal(out, n / 10);
    }
    out.append(digit_str(n % 10));
    assert(final(out)@ =~= old(out)@ + decimal(n as nat));
}

/// Number of digits in the decimal writing of `n`.
fn decimal_len(n: u64) -> (r: u64)
    ensures
        r as nat == decimal(n as nat).len(),
    decreases n,
{
    proof {
        lemma_decimal_len_bound(n as nat);
        lemma_decimal_len(n as nat);
    }
    if n < 10 {
        1
    } else {
        let k = decimal_len(n / 10);
        k + 1
    }
}

/// Writes `gen` as a zero-padded decimal of at least sixteen digits.
pub fn format_generation(gen: u64) -> (r: String)
    ensures
        r@ == padded(gen as nat),
{
    let len = decimal_len(gen);
    let mut out = String::new();
    if len < NAME_WIDTH {
        let pad = NAME_WIDTH - len;
        let mut i: u64 = 0;
        while i < pad
            invariant
                i <= pad,
                out@ == Seq::new(i as nat, |j: int| '0'),
            decreases pad - i,
        {
            proof {
                reveal_strlit("0");
            }
            out.append("0");
            assert(out@ =~= Seq::new((i + 1) as nat, |j: int| '0'));
            i = i + 1;
        }
    }
    push_decimal(&mut out, gen);
    assert(out@ =~= padded(gen as nat));
    out
}

/// File name of the segment file of generation `gen`.
pub fn log_path(gen: u64) -> (r: String)
    ensures
        r@ == segment_name(gen as nat),
{
    let mut name = format_generation(gen);
    proof {
        reveal_strlit(".log");
    }
    name.append(".log");
    name
}

/// Reads `s` as `u64::from_str` does: an optional `+`, then decimal digits.
pub fn parse_generation(s: &str) -> (r: Option<u64>)
    ensures
        r == parse_u64(s@),
{
    let n = s.unicode_len();
    let mut i: usize = 0;
    if n > 0 && s.get_char(0) == '+' {
        i = 1;
    }
    let ghost d = unsigned_part(s@);
    let start = i;
    assert(d =~= s@.subrange(start as int, n as int));
    if start == n {
        return None;
    }
    let mut acc: u64 = 0;
    while i < n
        invariant
            start <= i <= n,
            n == s@.len(),
            d == unsigned_part(s@),
            d =~= s@.subrange(start as int, n as int),
            all_digits(d.subrange(0, i - start)),
            acc as nat == digits_value(d.subrange(0, i - start)),
        decreases n - i,
    {
        let c = s.get_char(i);
        assert(d[i - start] == c);
        if c < '0' || c > '9' {
            assert(!is_digit(d[i - start]));
            assert(!all_digits(d));
            return None;
        }
        let v = (c as u32 - '0' as u32) as u64;
        assert(v as nat == digit_value(c));
        assert(d.subrange(0, i + 1 - start).drop_last() =~= d.subrange(0, i - start));
        assert(d.subrange(0, i + 1 - start).last() == c);
        if acc > (u64::MAX - v) / 10 {
            proof {
                assert(all_digits(d.subrange(0, i + 1 - start)));
                assert(digits_value(d.subrange(0, i + 1 - start)) > u64::MAX) by (nonlinear_arith)
                    requires
                        acc > (u64::MAX - v) / 10,
                        digits_value(d.subrange(0, i + 1 - start)) == acc * 10 + v,
                        v < 10,
                ;
                if all_digits(d) {
                    lemma_digits_value_prefix_grows(d, i + 1 - start, d.len() as int);
                    assert(d.subrange(0, d.len() as int) =~= d);
                }
            }
            return None;
        }
        acc = acc * 10 + v;
        i = i + 1;
    }
    assert(d.subrange(0, n - start) =~= d);
    Some(acc)
}

/// Generation of a segment file name, or `None` when the name does not
/// follow the segment naming convention.
pub fn generation_of_name(name: &str) -> (r: Option<u64>)
    ensures
        r == generation_of(name@),
{
    let n = name.unicode_len();
    if n < 4 {
        return None;
    }
    let stem = name.substring_char(0, n - 4);
    let ext = name.substring_char(n - 4, n).to_owned();
    let dot_log = ".log".to_owned();
    proof {
        reveal_strlit(".log");
    }
    assert(dot_log@ =~= seq!['.', 'l', 'o', 'g']);
    if ext == dot_log {
        assert(ext@ =~= seq!['.', 'l', 'o', 'g']);
        parse_generation(stem)
    } else {
        assert(ext@ != seq!['.', 'l', 'o', 'g']);
        None
    }
}

/// A parsed segment file stem: the generation it names, and whether the
/// text was a valid generation at all.
#[derive(Debug, Clone, Copy, PartialEq, Eq, Structural)]
pub struct Filename {
    pub general: u64,
    pub valid: bool,
}

impl Filename {
    /// The valid name of generation `general`.
    pub fn new(general: u64) -> (r: Filename)
        ensures
            r.general == general,
            r.valid,
    {
        Filename { general, valid: true }
    }

    /// Whether the name was read from a valid generation number.
    pub fn is_valid(&self) -> (r: bool)
        ensures
            r == self.valid,
    {
        self.valid
    }

    /// The name as it stands in a segment file, before the extension.
    pub fn to_string(&self) -> (r: String)
        ensures
            r@ == padded(self.general as nat),
    {
        format_generation(self.general)
    }

    /// Reads a stem; text that is not a `u64` gives an invalid name of
    /// generation zero.
    pub fn parse(s: &str) -> (r: Filename)
        ensures
            r == Filename::spec_from(s@),
    {
        match parse_generation(s) {
            Some(general) => Filename { general, valid: true },
            None => Filename { general: 0, valid: false },
        }
    }

    pub open spec fn spec_from(s: Seq<char>) -> Filename {
        match parse_u64(s) {
            Some(g) => Filename { general: g, valid: true },
            None => Filename { general: 0, valid: false },
        }
    }
}

impl<'a> From<&'a str> for Filename {
    fn from(s: &'a str) -> (r: Filename) {
        Filename::parse(s)
    }
}

impl<'a> vstd::std_specs::convert::FromSpecImpl<&'a str> for Filename {
    open spec fn obeys_from_spec() -> bool {
        true
    }

    open spec fn from_spec(s: &'a str) -> Filename {
        Filename::spec_from(s@)
    }
}

impl core::str::FromStr for Filename {
    type Err = KvsError;

    fn from_str(s: &str) -> core::result::Result<Filename, KvsError> {
        Ok(Filename::parse(s))
    }
}

} // verus!
