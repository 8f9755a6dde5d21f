use vstd::prelude::*;

use crate::events::{
    clone_opt_string, view_opt_percent, view_opt_string, ScanPercent, SignatureEntry,
    SignatureEntryV,
};
use crate::strutil::{
    chars_of, find_char, lines_of, spec_find, spec_lines, spec_split_on, spec_trim, split_on,
    string_of_chars, trim_chars,
};

verus! {

/// Why a snapshot text was rejected, with the 1-based line it failed on.
#[derive(Clone, Debug, PartialEq, Eq)]
pub enum SignatureParseError {
    InvalidColumnCount { line: usize, expected_at_least: usize, actual: usize },
    InvalidSignatureId { line: usize, value: String },
    MissingGroup { line: usize },
    InvalidScanPercent { line: usize, value: String, reason: String },
}

/// Mathematical image of a [`SignatureParseError`].
pub enum SignatureParseErrorV {
    InvalidColumnCount { line: int, expected_at_least: int, actual: int },
    InvalidSignatureId { line: int, value: Seq<char> },
    MissingGroup { line: int },
    InvalidScanPercent { line: int, value: Seq<char>, reason: Seq<char> },
}

impl View for SignatureParseError {
    type V = SignatureParseErrorV;

    open spec fn view(&self) -> SignatureParseErrorV {
        match self {
            SignatureParseError::InvalidColumnCount { line, expected_at_least, actual } =>
                SignatureParseErrorV::InvalidColumnCount {
                    line: *line as int,
                    expected_at_least: *expected_at_least as int,
                    actual: *actual as int,
                },
            SignatureParseError::InvalidSignatureId { line, value } =>
                SignatureParseErrorV::InvalidSignatureId { line: *line as int, value: value@ },
            SignatureParseError::MissingGroup { line } =>
                SignatureParseErrorV::MissingGroup { line: *line as int },
            SignatureParseError::InvalidScanPercent { line, value, reason } =>
                SignatureParseErrorV::InvalidScanPercent {
                    line: *line as int,
                    value: value@,
                    reason: reason@,
                },
        }
    }
}

pub open spec fn spec_is_digit(c: char) -> bool {
    '0' <= c && c <= '9'
}

pub open spec fn spec_is_upper(c: char) -> bool {
    'A' <= c && c <= 'Z'
}

pub open spec fn spec_digit_val(c: char) -> int {
    c as int - '0' as int
}

pub open spec fn spec_all_digits(s: Seq<char>) -> bool {
    forall|i: int| 0 <= i < s.len() ==> spec_is_digit(#[trigger] s[i])
}

/// The numeric value of a digit sequence read in base ten.
pub open spec fn spec_digits_value(s: Seq<char>) -> int
    decreases s.len(),
{
    if s.len() == 0 {
        0
    } else {
        spec_digits_value(s.drop_last()) * 10 + spec_digit_val(s.last())
    }
}

pub open spec fn spec_pow10(n: nat) -> int
    decreases n,
{
    if n == 0 {
        1
    } else {
        10 * spec_pow10((n - 1) as nat)
    }
}

proof fn lemma_pow10_pos(n: nat)
    ensures
        spec_pow10(n) >= 1,
    decreases n,
{
    if n > 0 {
        lemma_pow10_pos((n - 1) as nat);
    }
}

pub proof fn lemma_digits_value_nonneg(s: Seq<char>)
    requires
        spec_all_digits(s),
    ensures
        spec_digits_value(s) >= 0,
    decreases s.len(),
{
    if s.len() > 0 {
        assert(spec_all_digits(s.drop_last())) by {
            assert(forall|i: int| 0 <= i < s.len() - 1 ==> s.drop_last()[i] == s[i]);
        }
        lemma_digits_value_nonneg(s.drop_last());
        assert(spec_is_digit(s.last()));
    }
}

proof fn lemma_digits_value_split(s: Seq<char>, k: int)
    requires
        0 <= k <= s.len(),
    ensures
        spec_digits_value(s) == spec_digits_value(s.subrange(0, k))
            * spec_pow10((s.len() - k) as nat)
            + spec_digits_value(s.subrange(k, s.len() as int)),
    decreases s.len() - k,
{
    if k == s.len() {
        assert(s.subrange(0, k) =~= s);
        assert(s.subrange(k, s.len() as int) =~= Seq::<char>::empty());
    } else {
        lemma_digits_value_split(s.drop_last(), k);
        assert(s.drop_last().subrange(0, k) =~= s.subrange(0, k));
        assert(s.drop_last().subrange(k, s.len() - 1)
            =~= s.subrange(k, s.len() as int).drop_last());
        let tail = s.subrange(k, s.len() as int);
        assert(tail.last() == s.last());
        let a = spec_digits_value(s.subrange(0, k));
        let m = spec_digits_value(tail.drop_last());
        let p = spec_pow10((s.len() - 1 - k) as nat);
        let d = spec_digit_val(s.last());
        assert(spec_digits_value(tail) == m * 10 + d);
        assert(spec_pow10((s.len() - k) as nat) == 10 * p);
        assert(spec_digits_value(s) == spec_digits_value(s.drop_last()) * 10 + d);
        assert(spec_digits_value(s.drop_last()) == a * p + m);
        assert((a * p + m) * 10 + d == a * (10 * p) + (m * 10 + d)) by (nonlinear_arith);
    }
}

proof fn lemma_digits_value_all_zero(s: Seq<char>)
    requires
        forall|i: int| 0 <= i < s.len() ==> s[i] == '0',
    ensures
        spec_digits_value(s) == 0,
    decreases s.len(),
{
    if s.len() > 0 {
        assert(forall|i: int| 0 <= i < s.len() - 1 ==> s.drop_last()[i] == s[i]);
        lemma_digits_value_all_zero(s.drop_last());
        assert(s.last() == s[s.len() - 1]);
    }
}

proof fn lemma_digits_value_lower(s: Seq<char>)
    requires
        spec_all_digits(s),
        s.len() >= 1,
        s[0] != '0',
    ensures
        spec_digits_value(s) >= spec_pow10((s.len() - 1) as nat),
{
    lemma_digits_value_split(s, 1);
    let head = s.subrange(0, 1);
    let tail = s.subrange(1, s.len() as int);
    assert(head.drop_last() =~= Seq::<char>::empty());
    assert(spec_digits_value(head.drop_last()) == 0);
    assert(head.last() == s[0]);
    assert(spec_digits_value(head) == spec_digit_val(s[0]));
    assert(spec_is_digit(s[0]));
    assert(spec_digit_val(s[0]) >= 1);
    assert(spec_all_digits(tail)) by {
        assert(forall|i: int| 0 <= i < tail.len() ==> tail[i] == s[i + 1]);
    }
    lemma_digits_value_nonneg(tail);
    lemma_pow10_pos((s.len() - 1) as nat);
    let h = spec_digits_value(head);
    let p = spec_pow10((s.len() - 1) as nat);
    let t = spec_digits_value(tail);
    assert(h * p + t >= p) by (nonlinear_arith)
        requires
            h >= 1,
            p >= 1,
            t >= 0,
    ;
}

/// Whether a candidate signature identifier has the canonical shape:
/// three upper-case letters, a hyphen, three digits.
pub open spec fn spec_is_valid_signature_id(s: Seq<char>) -> bool {
    s.len() == 7
        && spec_is_upper(s[0]) && spec_is_upper(s[1]) && spec_is_upper(s[2])
        && s[3] == '-'
        && spec_is_digit(s[4]) && spec_is_digit(s[5]) && spec_is_digit(s[6])
}

pub fn is_upper_char(c: char) -> (r: bool)
    ensures
        r == spec_is_upper(c),
{
    'A' <= c && c <= 'Z'
}

pub fn is_digit_char(c: char) -> (r: bool)
    ensures
        r == spec_is_digit(c),
{
    '0' <= c && c <= '9'
}

pub fn digit_val(c: char) -> (r: u32)
    requires
        spec_is_digit(c),
    ensures
        r == spec_digit_val(c),
        r <= 9,
{
    (c as u32) - 48
}

fn is_valid_signature_id_chars(cs: &Vec<char>) -> (r: bool)
    ensures
        r == spec_is_valid_signature_id(cs@),
{
    if cs.len() != 7 {
        return false;
    }
    is_upper_char(cs[0]) && is_upper_char(cs[1]) && is_upper_char(cs[2])
        && cs[3] == '-'
        && is_digit_char(cs[4]) && is_digit_char(cs[5]) && is_digit_char(cs[6])
}

/// Whether the string is a well-formed signature identifier such as
/// `ABC-123`.
pub fn is_valid_signature_id(value: &str) -> (r: bool)
    ensures
        r == spec_is_valid_signature_id(value@),
{
    let cs = chars_of(value);
    is_valid_signature_id_chars(&cs)
}

/// Outcome of reading one scan-percent column.
pub enum SpecPercent {
    /// The column was empty.
    Missing,
    /// A value in hundredths of a percent.
    Value(int),
    /// The column does not have the shape `digits[.digits]%`.
    NotNumeric,
    /// The numeric value exceeds 100 percent.
    OutOfRange,
}

/// Whether any character of the sequence is not the digit zero.
pub open spec fn spec_any_nonzero(s: Seq<char>) -> bool {
    exists|j: int| 0 <= j < s.len() && s[j] != '0'
}

/// The tens-and-units contribution of the fraction digits, read at a
/// resolution of one hundredth of a percent; finer digits are discarded.
pub open spec fn spec_frac_hundredths(frac: Seq<char>) -> int {
    (if frac.len() >= 1 { spec_digit_val(frac[0]) * 10 } else { 0 })
        + (if frac.len() >= 2 { spec_digit_val(frac[1]) } else { 0 })
}

/// How one trimmed scan-percent column reads: empty means absent; else the
/// column must be decimal digits, an optional fraction, and a `%` sign,
/// and must not exceed 100 percent.
pub open spec fn spec_parse_scan_percent(s: Seq<char>) -> SpecPercent {
    if s.len() == 0 {
        SpecPercent::Missing
    } else if s.last() != '%' {
        SpecPercent::NotNumeric
    } else {
        let body = s.drop_last();
        let dot = spec_find(body, '.', 0);
        let int_part = body.subrange(0, dot);
        let frac = if dot == body.len() {
            Seq::<char>::empty()
        } else {
            body.subrange(dot + 1, body.len() as int)
        };
        if int_part.len() == 0 || !spec_all_digits(int_part) {
            SpecPercent::NotNumeric
        } else if dot < body.len() && (frac.len() == 0 || !spec_all_digits(frac)) {
            SpecPercent::NotNumeric
        } else {
            let v = spec_digits_value(int_part);
            if v > 100 || (v == 100 && spec_any_nonzero(frac)) {
                SpecPercent::OutOfRange
            } else {
                SpecPercent::Value(v * 100 + spec_frac_hundredths(frac))
            }
        }
    }
}

fn all_digits_range(cs: &Vec<char>, from: usize, to: usize) -> (r: bool)
    requires
        from <= to <= cs@.len(),
    ensures
        r == spec_all_digits(cs@.subrange(from as int, to as int)),
{
    let mut i: usize = from;
    while i < to
        invariant
            from <= i <= to <= cs@.len(),
            forall|j: int| from <= j < i ==> spec_is_digit(#[trigger] cs@[j]),
        decreases to - i,
    {
        if !is_digit_char(cs[i]) {
            proof {
                let sub = cs@.subrange(from as int, to as int);
                assert(sub[i - from] == cs@[i as int]);
            }
            return false;
        }
        i = i + 1;
    }
    proof {
        let sub = cs@.subrange(from as int, to as int);
        assert(forall|j: int| 0 <= j < sub.len() ==> sub[j] == cs@[j + from]);
    }
    true
}

/// The exact value of at most three digits.
fn small_digits_value(cs: &Vec<char>, from: usize, to: usize) -> (r: u32)
    requires
        from <= to <= cs@.len(),
        to - from <= 3,
        spec_all_digits(cs@.subrange(from as int, to as int)),
    ensures
        r == spec_digits_value(cs@.subrange(from as int, to as int)),
        r <= 999,
{
    let ghost sub = cs@.subrange(from as int, to as int);
    let mut v: u32 = 0;
    let mut i: usize = from;
    proof {
        assert(sub.subrange(0, 0) =~= Seq::<char>::empty());
    }
    while i < to
        invariant
            from <= i <= to <= cs@.len(),
            to - from <= 3,
            spec_all_digits(sub),
            sub == cs@.subrange(from as int, to as int),
            v == spec_digits_value(sub.subrange(0, i - from)),
            v <= spec_pow10((i - from) as nat) - 1,
        decreases to - i,
    {
        proof {
            assert(sub[i - from] == cs@[i as int]);
            assert(spec_is_digit(cs@[i as int]));
            assert(sub.subrange(0, i - from + 1).drop_last() =~= sub.subrange(0, i - from));
            assert(sub.subrange(0, i - from + 1).last() == sub[i - from]);
            assert(spec_pow10(((i - from) + 1) as nat) == 10 * spec_pow10((i - from) as nat));
            assert(i - from <= 2);
            lemma_pow10_mono((i - from) as nat, 2nat);
            assert(spec_pow10(2nat) == 100) by {
                reveal_with_fuel(spec_pow10, 3);
            }
        }
        let d = digit_val(cs[i]);
        v = v * 10 + d;
        i = i + 1;
    }
    proof {
        assert(sub.subrange(0, to - from) =~= sub);
        assert(spec_pow10(3nat) == 1000) by { reveal_with_fuel(spec_pow10, 4); }
        if to - from < 3 {
            lemma_pow10_mono((to - from) as nat, 3nat);
        }
    }
    v
}

fn any_nonzero_range(cs: &Vec<char>, from: usize, to: usize) -> (r: bool)
    requires
        from <= to <= cs@.len(),
    ensures
        r == spec_any_nonzero(cs@.subrange(from as int, to as int)),
{
    let ghost sub = cs@.subrange(from as int, to as int);
    let mut i: usize = from;
    while i < to
        invariant
            from <= i <= to <= cs@.len(),
            sub == cs@.subrange(from as int, to as int),
            forall|j: int| 0 <= j < i - from ==> sub[j] == '0',
        decreases to - i,
    {
        if cs[i] != '0' {
            proof {
                assert(sub[i - from] == cs@[i as int]);
                assert(spec_any_nonzero(sub));
            }
            return true;
        }
        proof {
            assert(sub[i - from] == cs@[i as int]);
        }
        i = i + 1;
    }
    false
}

/// Reads one trimmed scan-percent column; the error strings match the
/// diagnostic reasons the parser reports.
fn parse_scan_percent_chars(cs: &Vec<char>) -> (r: Result<Option<ScanPercent>, &'static str>)
    ensures
        match spec_parse_scan_percent(cs@) {
            SpecPercent::Missing => r == Ok::<Option<ScanPercent>, &'static str>(None),
            SpecPercent::Value(h) => match r {
                Ok(Some(p)) => p.spec_hundredths() == h,
                _ => false,
            },
            SpecPercent::NotNumeric => match r {
                Err(reason) => reason@ == "expected numeric value with '%' suffix"@,
                _ => false,
            },
            SpecPercent::OutOfRange => match r {
                Err(reason) => reason@ == "value must be between 0 and 100"@,
                _ => false,
            },
        },
{
    let n: usize = cs.len();
    if n == 0 {
        return Ok(None);
    }
    if cs[n - 1] != '%' {
        proof {
            assert(cs@.last() == cs@[n - 1]);
        }
        return Err("expected numeric value with '%' suffix");
    }
    let ghost body = cs@.drop_last();
    proof {
        assert(body =~= cs@.subrange(0, n - 1));
        assert(cs@.last() == cs@[n - 1]);
    }
    // find the decimal point within the body; `%` is not `.` so a scan of
    // the whole vector stopping at `n - 1` agrees with a scan of the body
    let mut dot: usize = 0;
    while dot < n - 1 && cs[dot] != '.'
        invariant
            0 <= dot <= n - 1,
            n == cs@.len(),
            forall|j: int| 0 <= j < dot ==> cs@[j] != '.',
        decreases n - 1 - dot,
    {
        dot = dot + 1;
    }
    proof {
        assert(forall|j: int| 0 <= j < body.len() ==> body[j] == cs@[j]);
        crate::strutil::lemma_spec_find_unique(body, '.', 0, dot as int);
    }
    let ghost int_part = body.subrange(0, dot as int);
    let ghost frac = if dot == n - 1 {
        Seq::<char>::empty()
    } else {
        body.subrange(dot + 1, body.len() as int)
    };
    proof {
        assert(int_part =~= cs@.subrange(0, dot as int));
        if dot < n - 1 {
            assert(frac =~= cs@.subrange(dot + 1, n - 1));
        }
    }
    if dot == 0 || !all_digits_range(cs, 0, dot) {
        return Err("expected numeric value with '%' suffix");
    }
    if dot < n - 1 {
        if dot + 1 == n - 1 || !all_digits_range(cs, dot + 1, n - 1) {
            proof {
                if dot + 1 == n - 1 {
                    assert(frac.len() == 0);
                }
            }
            return Err("expected numeric value with '%' suffix");
        }
    }
    // skip leading zeros of the integer part
    let mut z: usize = 0;
    while z < dot && cs[z] == '0'
        invariant
            0 <= z <= dot,
            dot <= cs@.len(),
            forall|j: int| 0 <= j < z ==> cs@[j] == '0',
        decreases dot - z,
    {
        z = z + 1;
    }
    proof {
        lemma_digits_value_split(int_part, z as int);
        assert(int_part.subrange(0, z as int) =~= cs@.subrange(0, z as int));
        assert(forall|j: int| 0 <= j < z ==> int_part.subrange(0, z as int)[j] == '0');
        lemma_digits_value_all_zero(int_part.subrange(0, z as int));
        assert(int_part.subrange(z as int, int_part.len() as int)
            =~= cs@.subrange(z as int, dot as int));
        assert(spec_digits_value(int_part)
            == spec_digits_value(cs@.subrange(z as int, dot as int)));
        assert(spec_all_digits(cs@.subrange(z as int, dot as int))) by {
            let sub = cs@.subrange(z as int, dot as int);
            assert(forall|j: int| 0 <= j < sub.len() ==> sub[j] == int_part[j + z]);
        }
    }
    let fully_zero: bool = z == dot;
    if dot - z > 3 {
        proof {
            let sig = cs@.subrange(z as int, dot as int);
            assert(sig[0] == cs@[z as int]);
            assert(cs@[z as int] != '0');
            lemma_digits_value_lower(sig);
            lemma_pow10_pos((sig.len() - 1) as nat);
            assert(spec_pow10(3nat) == 1000) by { reveal_with_fuel(spec_pow10, 4); }
            assert(sig.len() - 1 >= 3);
            assert(spec_pow10((sig.len() - 1) as nat) >= spec_pow10(3nat)) by {
                lemma_pow10_mono(3nat, (sig.len() - 1) as nat);
            }
        }
        return Err("value must be between 0 and 100");
    }
    let v: u32 = if fully_zero {
        proof {
            assert(cs@.subrange(z as int, dot as int) =~= Seq::<char>::empty());
        }
        0
    } else {
        small_digits_value(cs, z, dot)
    };
    let frac_nonzero: bool = if dot < n - 1 {
        any_nonzero_range(cs, dot + 1, n - 1)
    } else {
        false
    };
    proof {
        assert(v == spec_digits_value(int_part));
        // the scan of the fraction agrees with the mathematical statement
        // over `frac`
        if dot < n - 1 {
            assert(frac_nonzero == spec_any_nonzero(frac));
        } else {
            assert(!spec_any_nonzero(frac));
        }
    }
    if v > 100 || (v == 100 && frac_nonzero) {
        return Err("value must be between 0 and 100");
    }
    let d1: u32 = if n - dot >= 3 {
        proof {
            assert(frac[0] == cs@[dot + 1]);
            assert(spec_is_digit(frac[0]));
        }
        digit_val(cs[dot + 1]) * 10
    } else {
        0
    };
    let d2: u32 = if n - dot >= 4 {
        proof {
            assert(frac[1] == cs@[dot + 2]);
            assert(spec_is_digit(frac[1]));
        }
        digit_val(cs[dot + 2])
    } else {
        0
    };
    let hundredths: u32 = v * 100 + d1 + d2;
    proof {
        if v == 100 {
            assert(!frac_nonzero);
            if frac.len() >= 1 {
                assert(frac[0] == '0');
            }
            if frac.len() >= 2 {
                assert(frac[1] == '0');
            }
            assert(spec_frac_hundredths(frac) == 0);
        }
        assert(hundredths == spec_digits_value(int_part) * 100 + spec_frac_hundredths(frac));
    }
    let p = ScanPercent::from_hundredths(hundredths as u16).unwrap();
    Ok(Some(p))
}

proof fn lemma_pow10_mono(a: nat, b: nat)
    requires
        a <= b,
    ensures
        spec_pow10(a) <= spec_pow10(b),
    decreases b,
{
    if a < b {
        lemma_pow10_mono(a, (b - 1) as nat);
        lemma_pow10_pos((b - 1) as nat);
    }
}

} // verus!

verus! {

/// How one raw snapshot line reads: an entry, nothing for a blank line,
/// or the diagnostic it fails with.
pub open spec fn spec_parse_line(line: Seq<char>, lineno: int) -> Result<
    Option<SignatureEntryV>,
    SignatureParseErrorV,
> {
    if spec_trim(line).len() == 0 {
        Ok(None)
    } else {
        let cols = spec_split_on(line, '\t').map_values(|c: Seq<char>| spec_trim(c));
        if cols.len() < 5 {
            Err(SignatureParseErrorV::InvalidColumnCount {
                line: lineno,
                expected_at_least: 5,
                actual: cols.len() as int,
            })
        } else if !spec_is_valid_signature_id(cols[0]) {
            Err(SignatureParseErrorV::InvalidSignatureId { line: lineno, value: cols[0] })
        } else if cols[1].len() == 0 {
            Err(SignatureParseErrorV::MissingGroup { line: lineno })
        } else {
            match spec_parse_scan_percent(cols[4]) {
                SpecPercent::NotNumeric => Err(SignatureParseErrorV::InvalidScanPercent {
                    line: lineno,
                    value: cols[4],
                    reason: "expected numeric value with '%' suffix"@,
                }),
                SpecPercent::OutOfRange => Err(SignatureParseErrorV::InvalidScanPercent {
                    line: lineno,
                    value: cols[4],
                    reason: "value must be between 0 and 100"@,
                }),
                SpecPercent::Missing => Ok(Some(spec_line_entry(cols, None))),
                SpecPercent::Value(h) => Ok(Some(spec_line_entry(cols, Some(h)))),
            }
        }
    }
}

/// The entry described by five or more trimmed columns.
pub open spec fn spec_line_entry(cols: Seq<Seq<char>>, scan: Option<int>) -> SignatureEntryV {
    SignatureEntryV {
        signature_id: cols[0],
        group: cols[1],
        site_type: if cols[2].len() == 0 { None } else { Some(cols[2]) },
        name: if cols[3].len() == 0 { None } else { Some(cols[3]) },
        scan_percent: scan,
    }
}

pub open spec fn spec_entry_opt_view(o: Option<SignatureEntry>) -> Option<SignatureEntryV> {
    match o {
        Some(e) => Some(e@),
        None => None,
    }
}

fn parse_line(line: &Vec<char>, line_number: usize) -> (r: Result<
    Option<SignatureEntry>,
    SignatureParseError,
>)
    ensures
        match r {
            Ok(o) => spec_parse_line(line@, line_number as int)
                == Ok::<Option<SignatureEntryV>, SignatureParseErrorV>(spec_entry_opt_view(o)),
            Err(e) => spec_parse_line(line@, line_number as int)
                == Err::<Option<SignatureEntryV>, SignatureParseErrorV>(e@),
        },
{
    let trimmed = trim_chars(line);
    if trimmed.len() == 0 {
        return Ok(None);
    }
    let raw_cols = split_on(line, '\t');
    let ghost spec_cols = spec_split_on(line@, '\t').map_values(|c: Seq<char>| spec_trim(c));
    let ncols: usize = raw_cols.len();
    let mut cols: Vec<Vec<char>> = Vec::new();
    let mut i: usize = 0;
    while i < ncols
        invariant
            0 <= i <= ncols,
            ncols == raw_cols@.len(),
            raw_cols@.map_values(|v: Vec<char>| v@) == spec_split_on(line@, '\t'),
            spec_cols == spec_split_on(line@, '\t').map_values(|c: Seq<char>| spec_trim(c)),
            cols@.len() == i,
            forall|j: int| 0 <= j < i ==> #[trigger] cols@[j]@ == spec_cols[j],
        decreases ncols - i,
    {
        let t = trim_chars(&raw_cols[i]);
        proof {
            assert(raw_cols@.map_values(|v: Vec<char>| v@)[i as int] == raw_cols@[i as int]@);
            assert(spec_cols[i as int] == spec_trim(spec_split_on(line@, '\t')[i as int]));
        }
        cols.push(t);
        i = i + 1;
    }
    proof {
        assert(spec_cols.len() == ncols);
    }
    if ncols < 5 {
        return Err(SignatureParseError::InvalidColumnCount {
            line: line_number,
            expected_at_least: 5,
            actual: ncols,
        });
    }
    if !is_valid_signature_id_chars(&cols[0]) {
        return Err(SignatureParseError::InvalidSignatureId {
            line: line_number,
            value: string_of_chars(&cols[0]),
        });
    }
    if cols[1].len() == 0 {
        return Err(SignatureParseError::MissingGroup { line: line_number });
    }
    match parse_scan_percent_chars(&cols[4]) {
        Err(reason) => Err(SignatureParseError::InvalidScanPercent {
            line: line_number,
            value: string_of_chars(&cols[4]),
            reason: String::from_str(reason),
        }),
        Ok(scan) => {
            let site_type: Option<String> = if cols[2].len() == 0 {
                None
            } else {
                Some(string_of_chars(&cols[2]))
            };
            let name: Option<String> = if cols[3].len() == 0 {
                None
            } else {
                Some(string_of_chars(&cols[3]))
            };
            let entry = SignatureEntry {
                signature_id: string_of_chars(&cols[0]),
                group: string_of_chars(&cols[1]),
                site_type,
                name,
                scan_percent: scan,
            };
            proof {
                let ghost scan_v = match spec_parse_scan_percent(spec_cols[4]) {
                    SpecPercent::Value(h) => Some(h),
                    _ => None::<int>,
                };
                assert(entry@ == spec_line_entry(spec_cols, scan_v));
            }
            Ok(Some(entry))
        },
    }
}

/// How a whole snapshot text reads: the entries of its non-blank lines in
/// order, or the first line's diagnostic.
pub open spec fn spec_parse_lines(lines: Seq<Seq<char>>, lineno: int) -> Result<
    Seq<SignatureEntryV>,
    SignatureParseErrorV,
>
    decreases lines.len(),
{
    if lines.len() == 0 {
        Ok(Seq::empty())
    } else {
        match spec_parse_line(lines[0], lineno) {
            Err(e) => Err(e),
            Ok(head) => match spec_parse_lines(lines.drop_first(), lineno + 1) {
                Err(e) => Err(e),
                Ok(rest) => Ok(
                    match head {
                        Some(en) => seq![en] + rest,
                        None => rest,
                    },
                ),
            },
        }
    }
}

pub open spec fn spec_parse_snapshot(s: Seq<char>) -> Result<
    Seq<SignatureEntryV>,
    SignatureParseErrorV,
> {
    spec_parse_lines(spec_lines(s), 1)
}

/// Parses a tab-delimited signature snapshot into entries.
///
/// Each non-blank line must hold at least five tab-separated columns:
/// signature id, group, site type, name and scan percent; columns beyond
/// the fifth are ignored. String fields are the trimmed source columns;
/// empty optional columns read as absent.
pub fn parse_signature_snapshot(input: &str) -> (r: Result<
    Vec<SignatureEntry>,
    SignatureParseError,
>)
    ensures
        match r {
            Ok(entries) => spec_parse_snapshot(input@)
                == Ok::<Seq<SignatureEntryV>, SignatureParseErrorV>(
                    entries@.map_values(|e: SignatureEntry| e@),
                ),
            Err(e) => spec_parse_snapshot(input@)
                == Err::<Seq<SignatureEntryV>, SignatureParseErrorV>(e@),
        },
{
    let cs = chars_of(input);
    let lines = lines_of(&cs);
    let ghost linesv = spec_lines(input@);
    let n: usize = lines.len();
    let mut entries: Vec<SignatureEntry> = Vec::new();
    let mut i: usize = 0;
    proof {
        assert(linesv.subrange(0, n as int) =~= linesv);
        assert(entries@.map_values(|e: SignatureEntry| e@) =~= Seq::<SignatureEntryV>::empty());
    }
    while i < n
        invariant
            0 <= i <= n,
            n == lines@.len(),
            lines@.map_values(|v: Vec<char>| v@) == linesv,
            linesv == spec_lines(input@),
            spec_parse_lines(linesv, 1) == match spec_parse_lines(
                linesv.subrange(i as int, n as int),
                i + 1,
            ) {
                Ok(rest) => Ok::<Seq<SignatureEntryV>, SignatureParseErrorV>(
                    entries@.map_values(|e: SignatureEntry| e@) + rest,
                ),
                Err(e) => Err::<Seq<SignatureEntryV>, SignatureParseErrorV>(e),
            },
        decreases n - i,
    {
        let ghost suffix = linesv.subrange(i as int, n as int);
        proof {
            assert(suffix[0] == linesv[i as int]);
            assert(lines@[i as int]@ == linesv[i as int]);
            assert(suffix.drop_first() =~= linesv.subrange(i + 1, n as int));
        }
        match parse_line(&lines[i], i + 1) {
            Err(e) => {
                proof {
                    assert(spec_parse_lines(suffix, i + 1)
                        == Err::<Seq<SignatureEntryV>, SignatureParseErrorV>(e@));
                }
                return Err(e);
            },
            Ok(Some(entry)) => {
                let ghost prev = entries@.map_values(|e: SignatureEntry| e@);
                let ghost ev = entry@;
                entries.push(entry);
                proof {
                    assert(entries@.map_values(|e: SignatureEntry| e@) =~= prev.push(ev));
                    let tail = spec_parse_lines(linesv.subrange(i + 1, n as int), i + 2);
                    if tail is Ok {
                        let rest = tail->Ok_0;
                        assert(spec_parse_lines(suffix, i + 1)
                            == Ok::<Seq<SignatureEntryV>, SignatureParseErrorV>(
                                seq![ev] + rest,
                            ));
                        assert(prev + (seq![ev] + rest) =~= prev.push(ev) + rest);
                    } else {
                        assert(spec_parse_lines(suffix, i + 1) == tail);
                    }
                }
            },
            Ok(None) => {
                proof {
                    assert(spec_parse_lines(suffix, i + 1)
                        == spec_parse_lines(linesv.subrange(i + 1, n as int), i + 2));
                }
            },
        }
        i = i + 1;
    }
    proof {
        assert(linesv.subrange(n as int, n as int) =~= Seq::<Seq<char>>::empty());
        assert(spec_parse_lines(linesv.subrange(n as int, n as int), n + 1)
            == Ok::<Seq<SignatureEntryV>, SignatureParseErrorV>(Seq::empty()));
        assert(entries@.map_values(|e: SignatureEntry| e@) + Seq::<SignatureEntryV>::empty()
            =~= entries@.map_values(|e: SignatureEntry| e@));
    }
    Ok(entries)
}

} // verus!

verus! {

/// Mathematical image of a [`ProjectedSignature`]; percentages appear in
/// hundredths of a percent.
pub struct ProjectedSignatureV {
    pub signature_id: Seq<char>,
    pub group: Seq<char>,
    pub site_type: Option<Seq<char>>,
    pub name: Option<Seq<char>>,
    pub latest_scan_percent: Option<int>,
    pub highest_scan_percent_seen: Option<int>,
    pub missing_from_latest_snapshot: bool,
}

/// The accumulated knowledge about one signature in one system.
#[derive(Clone, Debug, PartialEq, Eq)]
pub struct ProjectedSignature {
    pub signature_id: String,
    pub group: String,
    pub site_type: Option<String>,
    pub name: Option<String>,
    pub latest_scan_percent: Option<ScanPercent>,
    pub highest_scan_percent_seen: Option<ScanPercent>,
    pub missing_from_latest_snapshot: bool,
}

impl View for ProjectedSignature {
    type V = ProjectedSignatureV;

    open spec fn view(&self) -> ProjectedSignatureV {
        ProjectedSignatureV {
            signature_id: self.signature_id@,
            group: self.group@,
            site_type: view_opt_string(self.site_type),
            name: view_opt_string(self.name),
            latest_scan_percent: view_opt_percent(self.latest_scan_percent),
            highest_scan_percent_seen: view_opt_percent(self.highest_scan_percent_seen),
            missing_from_latest_snapshot: self.missing_from_latest_snapshot,
        }
    }
}

impl ProjectedSignature {
    /// A copy with the same mathematical image.
    pub fn duplicate(&self) -> (r: ProjectedSignature)
        ensures
            r@ == self@,
    {
        ProjectedSignature {
            signature_id: self.signature_id.clone(),
            group: self.group.clone(),
            site_type: clone_opt_string(&self.site_type),
            name: clone_opt_string(&self.name),
            latest_scan_percent: self.latest_scan_percent,
            highest_scan_percent_seen: self.highest_scan_percent_seen,
            missing_from_latest_snapshot: self.missing_from_latest_snapshot,
        }
    }
}

/// The view of a whole signature list.
pub open spec fn sigs_view(sigs: Seq<ProjectedSignature>) -> Seq<ProjectedSignatureV> {
    sigs.map_values(|p: ProjectedSignature| p@)
}

/// No two elements carry the same signature id.
pub open spec fn spec_unique_sig_ids(sigs: Seq<ProjectedSignatureV>) -> bool {
    forall|i: int, j: int| 0 <= i < j < sigs.len()
        ==> (#[trigger] sigs[i].signature_id) != (#[trigger] sigs[j].signature_id)
}

/// The signature with every entry marked missing from the latest snapshot.
pub open spec fn spec_mark_missing(p: ProjectedSignatureV) -> ProjectedSignatureV {
    ProjectedSignatureV { missing_from_latest_snapshot: true, ..p }
}

/// The first index holding the given signature id, or the length.
pub open spec fn spec_find_sig(sigs: Seq<ProjectedSignatureV>, id: Seq<char>, from: int) -> int
    decreases sigs.len() - from when 0 <= from <= sigs.len()
{
    if from >= sigs.len() {
        sigs.len() as int
    } else if sigs[from].signature_id == id {
        from
    } else {
        spec_find_sig(sigs, id, from + 1)
    }
}

pub proof fn lemma_find_sig_unique(sigs: Seq<ProjectedSignatureV>, id: Seq<char>, from: int, k: int)
    requires
        0 <= from <= k <= sigs.len(),
        k < sigs.len() ==> sigs[k].signature_id == id,
        forall|j: int| from <= j < k ==> (#[trigger] sigs[j].signature_id) != id,
    ensures
        spec_find_sig(sigs, id, from) == k,
    decreases k - from,
{
    if from < k {
        lemma_find_sig_unique(sigs, id, from + 1, k);
    }
}

/// The state a signature unknown so far starts from when an entry arrives.
pub open spec fn spec_fresh_projected(e: SignatureEntryV) -> ProjectedSignatureV {
    ProjectedSignatureV {
        signature_id: e.signature_id,
        group: e.group,
        site_type: None,
        name: None,
        latest_scan_percent: None,
        highest_scan_percent_seen: None,
        missing_from_latest_snapshot: false,
    }
}

pub open spec fn spec_max_with(prev: Option<int>, x: int) -> int {
    match prev {
        Some(h) => if h >= x { h } else { x },
        None => x,
    }
}

/// One entry folded into the knowledge about its signature: non-empty
/// fields overwrite, a present percent becomes the latest and raises the
/// highest seen, and the signature is no longer missing.
pub open spec fn spec_merge_one(p: ProjectedSignatureV, e: SignatureEntryV) -> ProjectedSignatureV {
    ProjectedSignatureV {
        signature_id: p.signature_id,
        group: if e.group.len() > 0 { e.group } else { p.group },
        site_type: if e.site_type is Some { e.site_type } else { p.site_type },
        name: if e.name is Some { e.name } else { p.name },
        latest_scan_percent: match e.scan_percent {
            Some(x) => Some(x),
            None => p.latest_scan_percent,
        },
        highest_scan_percent_seen: match e.scan_percent {
            Some(x) => Some(spec_max_with(p.highest_scan_percent_seen, x)),
            None => p.highest_scan_percent_seen,
        },
        missing_from_latest_snapshot: false,
    }
}

pub open spec fn spec_apply_entry(
    sigs: Seq<ProjectedSignatureV>,
    e: SignatureEntryV,
) -> Seq<ProjectedSignatureV> {
    let i = spec_find_sig(sigs, e.signature_id, 0);
    if i < sigs.len() {
        sigs.update(i, spec_merge_one(sigs[i], e))
    } else {
        sigs.push(spec_merge_one(spec_fresh_projected(e), e))
    }
}

pub open spec fn spec_apply_entries(
    sigs: Seq<ProjectedSignatureV>,
    entries: Seq<SignatureEntryV>,
) -> Seq<ProjectedSignatureV>
    decreases entries.len(),
{
    if entries.len() == 0 {
        sigs
    } else {
        spec_apply_entries(spec_apply_entry(sigs, entries[0]), entries.drop_first())
    }
}

/// The signature list after one snapshot: everything first counts as
/// missing, then each incoming entry is folded in.
pub open spec fn spec_merge_snapshot(
    sigs: Seq<ProjectedSignatureV>,
    entries: Seq<SignatureEntryV>,
) -> Seq<ProjectedSignatureV> {
    spec_apply_entries(sigs.map_values(|p: ProjectedSignatureV| spec_mark_missing(p)), entries)
}

/// The first index holding the given signature id, or the length.
fn find_signature(sigs: &Vec<ProjectedSignature>, id: &String) -> (r: usize)
    ensures
        r == spec_find_sig(sigs_view(sigs@), id@, 0),
        r <= sigs@.len(),
        r < sigs@.len() ==> sigs@[r as int]@.signature_id == id@,
{
    let n: usize = sigs.len();
    let mut i: usize = 0;
    while i < n
        invariant
            0 <= i <= n,
            n == sigs@.len(),
            forall|j: int| 0 <= j < i ==> (#[trigger] sigs@[j]@.signature_id) != id@,
        decreases n - i,
    {
        if crate::strutil::str_eq(sigs[i].signature_id.as_str(), id.as_str()) {
            proof {
                assert(sigs_view(sigs@)[i as int] == sigs@[i as int]@);
                lemma_find_sig_unique(sigs_view(sigs@), id@, 0, i as int);
            }
            return i;
        }
        i = i + 1;
    }
    proof {
        assert(forall|j: int| 0 <= j < n
            ==> (#[trigger] sigs_view(sigs@)[j]).signature_id == sigs@[j]@.signature_id);
        lemma_find_sig_unique(sigs_view(sigs@), id@, 0, n as int);
    }
    n
}

fn merge_one(p: &ProjectedSignature, e: &SignatureEntry) -> (r: ProjectedSignature)
    ensures
        r@ == spec_merge_one(p@, e@),
{
    let group: String = if !e.group.as_str().is_empty() {
        e.group.clone()
    } else {
        p.group.clone()
    };
    let site_type: Option<String> = match &e.site_type {
        Some(_) => clone_opt_string(&e.site_type),
        None => clone_opt_string(&p.site_type),
    };
    let name: Option<String> = match &e.name {
        Some(_) => clone_opt_string(&e.name),
        None => clone_opt_string(&p.name),
    };
    let (latest, highest): (Option<ScanPercent>, Option<ScanPercent>) = match e.scan_percent {
        Some(x) => {
            let high = match p.highest_scan_percent_seen {
                Some(h) => h.max(x),
                None => x,
            };
            (Some(x), Some(high))
        },
        None => (p.latest_scan_percent, p.highest_scan_percent_seen),
    };
    ProjectedSignature {
        signature_id: p.signature_id.clone(),
        group,
        site_type,
        name,
        latest_scan_percent: latest,
        highest_scan_percent_seen: highest,
        missing_from_latest_snapshot: false,
    }
}

fn fresh_projected(e: &SignatureEntry) -> (r: ProjectedSignature)
    ensures
        r@ == spec_merge_one(spec_fresh_projected(e@), e@),
{
    let base = ProjectedSignature {
        signature_id: e.signature_id.clone(),
        group: e.group.clone(),
        site_type: None,
        name: None,
        latest_scan_percent: None,
        highest_scan_percent_seen: None,
        missing_from_latest_snapshot: false,
    };
    proof {
        assert(base@ == spec_fresh_projected(e@));
    }
    merge_one(&base, e)
}

/// Folds one snapshot's entries into the signatures of a system: every
/// signature not named by the snapshot becomes missing, and the named
/// ones are updated or created.
pub fn merge_signature_snapshot(
    signatures_by_id: &mut Vec<ProjectedSignature>,
    incoming_entries: &Vec<SignatureEntry>,
)
    ensures
        sigs_view(final(signatures_by_id)@) == spec_merge_snapshot(
            sigs_view(old(signatures_by_id)@),
            incoming_entries@.map_values(|e: SignatureEntry| e@),
        ),
{
    let ghost orig = sigs_view(signatures_by_id@);
    let ghost entriesv = incoming_entries@.map_values(|e: SignatureEntry| e@);
    let n: usize = signatures_by_id.len();
    let mut marked: Vec<ProjectedSignature> = Vec::new();
    let mut i: usize = 0;
    while i < n
        invariant
            0 <= i <= n,
            n == signatures_by_id@.len(),
            orig == sigs_view(signatures_by_id@),
            marked@.len() == i,
            forall|j: int| 0 <= j < i
                ==> #[trigger] marked@[j]@ == spec_mark_missing(orig[j]),
        decreases n - i,
    {
        let mut d = signatures_by_id[i].duplicate();
        d.missing_from_latest_snapshot = true;
        proof {
            assert(orig[i as int] == signatures_by_id@[i as int]@);
        }
        marked.push(d);
        i = i + 1;
    }
    *signatures_by_id = marked;
    proof {
        assert(sigs_view(signatures_by_id@)
            =~= orig.map_values(|p: ProjectedSignatureV| spec_mark_missing(p)));
    }
    let ghost base = sigs_view(signatures_by_id@);
    let m: usize = incoming_entries.len();
    let mut k: usize = 0;
    proof {
        assert(entriesv.subrange(0, m as int) =~= entriesv);
        assert(entriesv.subrange(k as int, m as int) =~= entriesv);
    }
    while k < m
        invariant
            0 <= k <= m,
            m == incoming_entries@.len(),
            entriesv == incoming_entries@.map_values(|e: SignatureEntry| e@),
            spec_apply_entries(base, entriesv)
                == spec_apply_entries(
                    sigs_view(signatures_by_id@),
                    entriesv.subrange(k as int, m as int),
                ),
        decreases m - k,
    {
        let ghost cur = sigs_view(signatures_by_id@);
        let ghost suffix = entriesv.subrange(k as int, m as int);
        proof {
            assert(suffix[0] == entriesv[k as int]);
            assert(entriesv[k as int] == incoming_entries@[k as int]@);
            assert(suffix.drop_first() =~= entriesv.subrange(k + 1, m as int));
        }
        let entry = &incoming_entries[k];
        let idx = find_signature(signatures_by_id, &entry.signature_id);
        if idx < signatures_by_id.len() {
            let merged = merge_one(&signatures_by_id[idx], entry);
            proof {
                assert(cur[idx as int] == signatures_by_id@[idx as int]@);
            }
            signatures_by_id.set(idx, merged);
            proof {
                assert(sigs_view(signatures_by_id@)
                    =~= cur.update(idx as int, spec_merge_one(cur[idx as int], entriesv[k as int])));
                assert(sigs_view(signatures_by_id@) =~= spec_apply_entry(cur, entriesv[k as int]));
            }
        } else {
            let fresh = fresh_projected(entry);
            signatures_by_id.push(fresh);
            proof {
                assert(sigs_view(signatures_by_id@)
                    =~= cur.push(spec_merge_one(spec_fresh_projected(entriesv[k as int]),
                        entriesv[k as int])));
                assert(sigs_view(signatures_by_id@) =~= spec_apply_entry(cur, entriesv[k as int]));
            }
        }
        k = k + 1;
    }
    proof {
        assert(entriesv.subrange(m as int, m as int) =~= Seq::<SignatureEntryV>::empty());
    }
}

} // verus!

verus! {

/// Whether a snapshot's entry list names the given signature.
pub open spec fn spec_entries_contain(entries: Seq<SignatureEntryV>, id: Seq<char>) -> bool {
    exists|j: int| 0 <= j < entries.len() && entries[j].signature_id == id
}

/// The scan percent of the last entry for the signature that carries one.
pub open spec fn spec_last_percent(entries: Seq<SignatureEntryV>, id: Seq<char>) -> Option<int>
    decreases entries.len(),
{
    if entries.len() == 0 {
        None
    } else {
        match spec_last_percent(entries.drop_first(), id) {
            Some(x) => Some(x),
            None => if entries[0].signature_id == id && entries[0].scan_percent is Some {
                entries[0].scan_percent
            } else {
                None
            },
        }
    }
}

/// The greatest scan percent any entry for the signature carries.
pub open spec fn spec_max_percent(entries: Seq<SignatureEntryV>, id: Seq<char>) -> Option<int>
    decreases entries.len(),
{
    if entries.len() == 0 {
        None
    } else {
        let rest = spec_max_percent(entries.drop_first(), id);
        match entries[0].scan_percent {
            Some(x) => if entries[0].signature_id == id {
                Some(spec_max_with(rest, x))
            } else {
                rest
            },
            None => rest,
        }
    }
}

/// The record a signature list holds for an id, when it holds one.
pub open spec fn spec_sig_at(
    sigs: Seq<ProjectedSignatureV>,
    id: Seq<char>,
) -> Option<ProjectedSignatureV> {
    let i = spec_find_sig(sigs, id, 0);
    if i < sigs.len() {
        Some(sigs[i])
    } else {
        None
    }
}

pub proof fn lemma_find_sig_bounds(sigs: Seq<ProjectedSignatureV>, id: Seq<char>, from: int)
    requires
        0 <= from <= sigs.len(),
    ensures
        from <= spec_find_sig(sigs, id, from) <= sigs.len(),
        spec_find_sig(sigs, id, from) < sigs.len()
            ==> sigs[spec_find_sig(sigs, id, from)].signature_id == id,
        forall|j: int| from <= j < spec_find_sig(sigs, id, from)
            ==> (#[trigger] sigs[j].signature_id) != id,
    decreases sigs.len() - from,
{
    if from < sigs.len() && sigs[from].signature_id != id {
        lemma_find_sig_bounds(sigs, id, from + 1);
    }
}

/// What one folded entry does to every signature record: the entry's own
/// record becomes the merge of its prior state (or a fresh one), and every
/// other record stays as it was.
pub proof fn lemma_apply_entry(sigs: Seq<ProjectedSignatureV>, e: SignatureEntryV)
    requires
        spec_unique_sig_ids(sigs),
    ensures
        spec_unique_sig_ids(spec_apply_entry(sigs, e)),
        spec_sig_at(spec_apply_entry(sigs, e), e.signature_id) == Some(
            spec_merge_one(
                match spec_sig_at(sigs, e.signature_id) {
                    Some(p) => p,
                    None => spec_fresh_projected(e),
                },
                e,
            ),
        ),
        forall|id: Seq<char>| id != e.signature_id
            ==> #[trigger] spec_sig_at(spec_apply_entry(sigs, e), id) == spec_sig_at(sigs, id),
        forall|id: Seq<char>| #[trigger] spec_sig_at(spec_apply_entry(sigs, e), id) is Some
            <==> (spec_sig_at(sigs, id) is Some || id == e.signature_id),
{
    let i = spec_find_sig(sigs, e.signature_id, 0);
    lemma_find_sig_bounds(sigs, e.signature_id, 0);
    let r = spec_apply_entry(sigs, e);
    if i < sigs.len() {
        assert(r == sigs.update(i, spec_merge_one(sigs[i], e)));
        assert(r.len() == sigs.len());
        assert(forall|k: int| 0 <= k < sigs.len()
            ==> (#[trigger] r[k].signature_id) == sigs[k].signature_id);
        assert(spec_unique_sig_ids(r));
        lemma_find_sig_unique(r, e.signature_id, 0, i);
        assert(spec_sig_at(r, e.signature_id) == Some(spec_merge_one(sigs[i], e)));
        assert forall|id: Seq<char>| id != e.signature_id
            implies #[trigger] spec_sig_at(r, id) == spec_sig_at(sigs, id) by {
            let f = spec_find_sig(sigs, id, 0);
            lemma_find_sig_bounds(sigs, id, 0);
            if f < sigs.len() {
                assert(r[f].signature_id == id);
                assert(f != i);
                lemma_find_sig_unique(r, id, 0, f);
            } else {
                lemma_find_sig_unique(r, id, 0, r.len() as int);
            }
        }
    } else {
        let fresh = spec_merge_one(spec_fresh_projected(e), e);
        assert(fresh.signature_id == e.signature_id);
        assert(r == sigs.push(fresh));
        assert(forall|k: int| 0 <= k < sigs.len()
            ==> (#[trigger] r[k].signature_id) == sigs[k].signature_id);
        assert(r[sigs.len() as int].signature_id == e.signature_id);
        assert(forall|j: int| 0 <= j < sigs.len()
            ==> (#[trigger] sigs[j].signature_id) != e.signature_id);
        assert(spec_unique_sig_ids(r)) by {
            assert(forall|a: int, b: int| 0 <= a < b < r.len() && b < sigs.len()
                ==> (#[trigger] r[a].signature_id) != (#[trigger] r[b].signature_id));
        }
        lemma_find_sig_unique(r, e.signature_id, 0, sigs.len() as int);
        assert(spec_sig_at(r, e.signature_id) == Some(fresh));
        assert forall|id: Seq<char>| id != e.signature_id
            implies #[trigger] spec_sig_at(r, id) == spec_sig_at(sigs, id) by {
            let f = spec_find_sig(sigs, id, 0);
            lemma_find_sig_bounds(sigs, id, 0);
            if f < sigs.len() {
                assert(r[f].signature_id == id);
                lemma_find_sig_unique(r, id, 0, f);
            } else {
                lemma_find_sig_unique(r, id, 0, r.len() as int);
            }
        }
    }
}

/// What a whole entry list folded into a signature list does to the record
/// of any one signature: its missing flag says whether the list skipped it,
/// its latest scan percent is the last one the list carries (else the prior
/// one), and its highest is the prior one raised by the list's maximum.
pub proof fn lemma_apply_entries_tracks(
    sigs: Seq<ProjectedSignatureV>,
    entries: Seq<SignatureEntryV>,
    id: Seq<char>,
)
    requires
        spec_unique_sig_ids(sigs),
    ensures
        spec_unique_sig_ids(spec_apply_entries(sigs, entries)),
        spec_sig_at(spec_apply_entries(sigs, entries), id) is Some
            <==> (spec_sig_at(sigs, id) is Some || spec_entries_contain(entries, id)),
        match spec_sig_at(spec_apply_entries(sigs, entries), id) {
            Some(p) => {
                let prior = spec_sig_at(sigs, id);
                let prior_missing = match prior {
                    Some(q) => q.missing_from_latest_snapshot,
                    None => false,
                };
                let prior_latest = match prior {
                    Some(q) => q.latest_scan_percent,
                    None => None,
                };
                let prior_highest = match prior {
                    Some(q) => q.highest_scan_percent_seen,
                    None => None,
                };
                &&& p.signature_id == id
                &&& p.missing_from_latest_snapshot == if spec_entries_contain(entries, id) {
                    false
                } else {
                    prior_missing
                }
                &&& p.latest_scan_percent == match spec_last_percent(entries, id) {
                    Some(x) => Some(x),
                    None => prior_latest,
                }
                &&& p.highest_scan_percent_seen == match spec_max_percent(entries, id) {
                    Some(x) => Some(spec_max_with(prior_highest, x)),
                    None => prior_highest,
                }
            },
            None => true,
        },
    decreases entries.len(),
{
    lemma_find_sig_bounds(sigs, id, 0);
    if entries.len() == 0 {
        assert(!spec_entries_contain(entries, id));
    } else {
        let e0 = entries[0];
        let r1 = spec_apply_entry(sigs, e0);
        let rest = entries.drop_first();
        lemma_apply_entry(sigs, e0);
        lemma_apply_entries_tracks(r1, rest, id);
        assert(spec_apply_entries(sigs, entries) == spec_apply_entries(r1, rest));
        // containment unrolls by one entry
        assert(spec_entries_contain(entries, id)
            == (e0.signature_id == id || spec_entries_contain(rest, id))) by {
            if spec_entries_contain(rest, id) {
                let j = choose|j: int| 0 <= j < rest.len() && rest[j].signature_id == id;
                assert(entries[j + 1].signature_id == id);
            }
            if e0.signature_id == id {
                assert(entries[0].signature_id == id);
            }
            if spec_entries_contain(entries, id) {
                let j = choose|j: int| 0 <= j < entries.len() && entries[j].signature_id == id;
                if j > 0 {
                    assert(rest[j - 1].signature_id == id);
                }
            }
        }
        if id == e0.signature_id {
            assert(spec_sig_at(r1, id) == Some(
                spec_merge_one(
                    match spec_sig_at(sigs, id) {
                        Some(p) => p,
                        None => spec_fresh_projected(e0),
                    },
                    e0,
                ),
            ));
        } else {
            assert(spec_sig_at(r1, id) == spec_sig_at(sigs, id));
        }
    }
}

/// After a snapshot is merged, a signature's record is missing exactly
/// when the snapshot does not name it; its latest scan percent is the last
/// one the snapshot carries for it, else the one it had before; and its
/// highest is its prior highest raised by the snapshot's maximum for it.
pub proof fn lemma_merge_snapshot_tracks(
    sigs: Seq<ProjectedSignatureV>,
    entries: Seq<SignatureEntryV>,
    id: Seq<char>,
)
    requires
        spec_unique_sig_ids(sigs),
    ensures
        spec_unique_sig_ids(spec_merge_snapshot(sigs, entries)),
        spec_sig_at(spec_merge_snapshot(sigs, entries), id) is Some
            <==> (spec_sig_at(sigs, id) is Some || spec_entries_contain(entries, id)),
        match spec_sig_at(spec_merge_snapshot(sigs, entries), id) {
            Some(p) => {
                let prior = spec_sig_at(sigs, id);
                let prior_latest = match prior {
                    Some(q) => q.latest_scan_percent,
                    None => None,
                };
                let prior_highest = match prior {
                    Some(q) => q.highest_scan_percent_seen,
                    None => None,
                };
                &&& p.signature_id == id
                &&& p.missing_from_latest_snapshot == !spec_entries_contain(entries, id)
                &&& p.latest_scan_percent == match spec_last_percent(entries, id) {
                    Some(x) => Some(x),
                    None => prior_latest,
                }
                &&& p.highest_scan_percent_seen == match spec_max_percent(entries, id) {
                    Some(x) => Some(spec_max_with(prior_highest, x)),
                    None => prior_highest,
                }
            },
            None => true,
        },
{
    let marked = sigs.map_values(|p: ProjectedSignatureV| spec_mark_missing(p));
    assert(marked.len() == sigs.len());
    assert(forall|k: int| 0 <= k < sigs.len()
        ==> (#[trigger] marked[k]).signature_id == sigs[k].signature_id
            && marked[k].missing_from_latest_snapshot
            && marked[k].latest_scan_percent == sigs[k].latest_scan_percent
            && marked[k].highest_scan_percent_seen == sigs[k].highest_scan_percent_seen);
    assert(spec_unique_sig_ids(marked));
    lemma_find_sig_bounds(sigs, id, 0);
    lemma_find_sig_bounds(marked, id, 0);
    // the search lands on the same index in the marked copy
    let f = spec_find_sig(sigs, id, 0);
    if f < sigs.len() {
        lemma_find_sig_unique(marked, id, 0, f);
    } else {
        lemma_find_sig_unique(marked, id, 0, marked.len() as int);
    }
    lemma_apply_entries_tracks(marked, entries, id);
}

} // verus!

verus! {

/// The diagnostic line for a parse error, as the operator sees it.
pub open spec fn spec_parse_error_message(e: SignatureParseErrorV) -> Seq<char> {
    match e {
        SignatureParseErrorV::InvalidColumnCount { line, expected_at_least, actual } =>
            "line "@ + crate::strutil::spec_u64_dec(line as nat) + ": expected at least "@
                + crate::strutil::spec_u64_dec(expected_at_least as nat)
                + " tab-delimited columns, got "@
                + crate::strutil::spec_u64_dec(actual as nat),
        SignatureParseErrorV::InvalidSignatureId { line, value } =>
            "line "@ + crate::strutil::spec_u64_dec(line as nat) + ": invalid signature id '"@
                + value + "'"@,
        SignatureParseErrorV::MissingGroup { line } =>
            "line "@ + crate::strutil::spec_u64_dec(line as nat) + ": missing group column"@,
        SignatureParseErrorV::InvalidScanPercent { line, value, reason } =>
            "line "@ + crate::strutil::spec_u64_dec(line as nat) + ": invalid scan percent '"@
                + value + "': "@ + reason,
    }
}

impl SignatureParseError {
    /// The diagnostic line for this error, as the operator sees it.
    pub fn message(&self) -> (r: String)
        ensures
            r@ == spec_parse_error_message(self@),
    {
        let mut out = String::from_str("line ");
        match self {
            SignatureParseError::InvalidColumnCount { line, expected_at_least, actual } => {
                crate::strutil::append_u64_dec(&mut out, *line as u64);
                out.append(": expected at least ");
                crate::strutil::append_u64_dec(&mut out, *expected_at_least as u64);
                out.append(" tab-delimited columns, got ");
                crate::strutil::append_u64_dec(&mut out, *actual as u64);
            },
            SignatureParseError::InvalidSignatureId { line, value } => {
                crate::strutil::append_u64_dec(&mut out, *line as u64);
                out.append(": invalid signature id '");
                out.append(value.as_str());
                out.append("'");
            },
            SignatureParseError::MissingGroup { line } => {
                crate::strutil::append_u64_dec(&mut out, *line as u64);
                out.append(": missing group column");
            },
            SignatureParseError::InvalidScanPercent { line, value, reason } => {
                crate::strutil::append_u64_dec(&mut out, *line as u64);
                out.append(": invalid scan percent '");
                out.append(value.as_str());
                out.append("': ");
                out.append(reason.as_str());
            },
        }
        out
    }
}

} // verus!
