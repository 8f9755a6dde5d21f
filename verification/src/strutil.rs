use vstd::prelude::*;

verus! {

/// Whitespace as Rust's `char::is_whitespace` defines it.
pub open spec fn spec_is_whitespace(c: char) -> bool {
    c == '\u{0009}' || c == '\u{000A}' || c == '\u{000B}' || c == '\u{000C}'
        || c == '\u{000D}' || c == '\u{0020}' || c == '\u{0085}' || c == '\u{00A0}'
        || c == '\u{1680}' || ('\u{2000}' <= c && c <= '\u{200A}') || c == '\u{2028}'
        || c == '\u{2029}' || c == '\u{202F}' || c == '\u{205F}' || c == '\u{3000}'
}

pub fn is_whitespace_char(c: char) -> (r: bool)
    ensures
        r == spec_is_whitespace(c),
{
    c == '\u{0009}' || c == '\u{000A}' || c == '\u{000B}' || c == '\u{000C}'
        || c == '\u{000D}' || c == '\u{0020}' || c == '\u{0085}' || c == '\u{00A0}'
        || c == '\u{1680}' || ('\u{2000}' <= c && c <= '\u{200A}') || c == '\u{2028}'
        || c == '\u{2029}' || c == '\u{202F}' || c == '\u{205F}' || c == '\u{3000}'
}

/// The sequence without its leading whitespace.
pub open spec fn spec_trim_start(s: Seq<char>) -> Seq<char>
    decreases s.len(),
{
    if s.len() > 0 && spec_is_whitespace(s[0]) {
        spec_trim_start(s.drop_first())
    } else {
        s
    }
}

/// The sequence without its trailing whitespace.
pub open spec fn spec_trim_end(s: Seq<char>) -> Seq<char>
    decreases s.len(),
{
    if s.len() > 0 && spec_is_whitespace(s.last()) {
        spec_trim_end(s.drop_last())
    } else {
        s
    }
}

/// The sequence without leading and trailing whitespace, as `str::trim`.
pub open spec fn spec_trim(s: Seq<char>) -> Seq<char> {
    spec_trim_end(spec_trim_start(s))
}

proof fn lemma_trim_start_subrange(s: Seq<char>, i: int)
    requires
        0 <= i <= s.len(),
        forall|j: int| 0 <= j < i ==> spec_is_whitespace(s[j]),
    ensures
        spec_trim_start(s) == spec_trim_start(s.subrange(i, s.len() as int)),
    decreases i,
{
    if i > 0 {
        assert(spec_is_whitespace(s[0]));
        assert(s.drop_first() =~= s.subrange(1, s.len() as int));
        lemma_trim_start_subrange(s.subrange(1, s.len() as int), i - 1);
        assert(s.subrange(1, s.len() as int).subrange(i - 1, s.len() - 1)
            =~= s.subrange(i, s.len() as int));
    } else {
        assert(s.subrange(0, s.len() as int) =~= s);
    }
}

proof fn lemma_trim_end_subrange(s: Seq<char>, i: int)
    requires
        0 <= i <= s.len(),
        forall|j: int| i <= j < s.len() ==> spec_is_whitespace(s[j]),
    ensures
        spec_trim_end(s) == spec_trim_end(s.subrange(0, i)),
    decreases s.len() - i,
{
    if i < s.len() {
        assert(spec_is_whitespace(s.last()));
        assert(s.drop_last() =~= s.subrange(0, s.len() - 1));
        lemma_trim_end_subrange(s.subrange(0, s.len() - 1), i);
        assert(s.subrange(0, s.len() - 1).subrange(0, i) =~= s.subrange(0, i));
    } else {
        assert(s.subrange(0, s.len() as int) =~= s);
    }
}

/// The trimmed copy of a character vector.
pub fn trim_chars(cs: &Vec<char>) -> (r: Vec<char>)
    ensures
        r@ == spec_trim(cs@),
{
    let n: usize = cs.len();
    let mut start: usize = 0;
    while start < n && is_whitespace_char(cs[start])
        invariant
            0 <= start <= n,
            n == cs@.len(),
            forall|j: int| 0 <= j < start ==> spec_is_whitespace(cs@[j]),
        decreases n - start,
    {
        start = start + 1;
    }
    let mut end: usize = n;
    while end > start && is_whitespace_char(cs[end - 1])
        invariant
            start <= end <= n,
            n == cs@.len(),
            forall|j: int| 0 <= j < start ==> spec_is_whitespace(cs@[j]),
            forall|j: int| end <= j < n ==> spec_is_whitespace(cs@[j]),
        decreases end,
    {
        end = end - 1;
    }
    proof {
        lemma_trim_start_subrange(cs@, start as int);
        let t = cs@.subrange(start as int, n as int);
        if end > start {
            // the scan stopped on a non-whitespace character, so the
            // trailing trim of the suffix stops exactly at `end`
            assert(!spec_is_whitespace(cs@[end - 1]));
        }
        assert(spec_trim_start(t) == t) by {
            if t.len() > 0 {
                assert(!spec_is_whitespace(cs@[start as int]));
                assert(t[0] == cs@[start as int]);
            }
        }
        lemma_trim_end_subrange(t, end - start);
        assert(t.subrange(0, end - start) =~= cs@.subrange(start as int, end as int));
        assert(spec_trim_end(cs@.subrange(start as int, end as int))
            == cs@.subrange(start as int, end as int)) by {
            let u = cs@.subrange(start as int, end as int);
            if u.len() > 0 {
                assert(!spec_is_whitespace(cs@[end - 1]));
                assert(u.last() == cs@[end - 1]);
            }
        }
    }
    let mut out: Vec<char> = Vec::new();
    let mut i: usize = start;
    while i < end
        invariant
            start <= i <= end <= n,
            n == cs@.len(),
            out@ =~= cs@.subrange(start as int, i as int),
        decreases end - i,
    {
        out.push(cs[i]);
        proof {
            assert(out@ =~= cs@.subrange(start as int, i + 1));
        }
        i = i + 1;
    }
    proof {
        assert(out@ =~= cs@.subrange(start as int, end as int));
    }
    out
}

/// The characters of a string slice, in order.
pub fn chars_of(s: &str) -> (r: Vec<char>)
    ensures
        r@ == s@,
{
    let n: usize = s.unicode_len();
    let mut out: Vec<char> = Vec::new();
    let mut i: usize = 0;
    while i < n
        invariant
            0 <= i <= n,
            n == s@.len(),
            out@ =~= s@.subrange(0, i as int),
        decreases n - i,
    {
        let c = s.get_char(i);
        out.push(c);
        proof {
            assert(out@ =~= s@.subrange(0, i + 1));
        }
        i = i + 1;
    }
    proof {
        assert(out@ =~= s@);
    }
    out
}

/// Relies on `String::push`: appends one character to the string.
#[verifier::external_body]
pub fn push_char(s: &mut String, c: char)
    ensures
        final(s)@ == old(s)@.push(c),
{
    s.push(c)
}

/// A string holding exactly the given characters.
pub fn string_of_chars(cs: &Vec<char>) -> (r: String)
    ensures
        r@ == cs@,
{
    let mut out = String::new();
    let n: usize = cs.len();
    let mut i: usize = 0;
    while i < n
        invariant
            0 <= i <= n,
            n == cs@.len(),
            out@ =~= cs@.subrange(0, i as int),
        decreases n - i,
    {
        push_char(&mut out, cs[i]);
        proof {
            assert(out@ =~= cs@.subrange(0, i + 1));
        }
        i = i + 1;
    }
    proof {
        assert(out@ =~= cs@);
    }
    out
}

/// Whether two string slices hold the same characters.
pub fn str_eq(a: &str, b: &str) -> (r: bool)
    ensures
        r == (a@ == b@),
{
    let na: usize = a.unicode_len();
    let nb: usize = b.unicode_len();
    if na != nb {
        return false;
    }
    let mut i: usize = 0;
    while i < na
        invariant
            0 <= i <= na,
            na == a@.len(),
            na == b@.len(),
            forall|j: int| 0 <= j < i ==> a@[j] == b@[j],
        decreases na - i,
    {
        if a.get_char(i) != b.get_char(i) {
            return false;
        }
        i = i + 1;
    }
    proof {
        assert(a@ =~= b@);
    }
    true
}

/// The first index at or after `from` holding `sep`, or the length when
/// none does.
pub open spec fn spec_find(s: Seq<char>, sep: char, from: int) -> int
    decreases s.len() - from when 0 <= from <= s.len()
{
    if from >= s.len() {
        s.len() as int
    } else if s[from] == sep {
        from
    } else {
        spec_find(s, sep, from + 1)
    }
}

pub proof fn lemma_spec_find_bounds(s: Seq<char>, sep: char, from: int)
    requires
        0 <= from <= s.len(),
    ensures
        from <= spec_find(s, sep, from) <= s.len(),
        spec_find(s, sep, from) < s.len() ==> s[spec_find(s, sep, from)] == sep,
        forall|j: int| from <= j < spec_find(s, sep, from) ==> s[j] != sep,
    decreases s.len() - from,
{
    if from < s.len() && s[from] != sep {
        lemma_spec_find_bounds(s, sep, from + 1);
    }
}

pub proof fn lemma_spec_find_unique(s: Seq<char>, sep: char, from: int, k: int)
    requires
        0 <= from <= k <= s.len(),
        k < s.len() ==> s[k] == sep,
        forall|j: int| from <= j < k ==> s[j] != sep,
    ensures
        spec_find(s, sep, from) == k,
    decreases k - from,
{
    if from < k {
        assert(s[from] != sep);
        lemma_spec_find_unique(s, sep, from + 1, k);
    }
}

/// The first index at or after `from` holding `sep`, or the length when
/// none does.
pub fn find_char(cs: &Vec<char>, sep: char, from: usize) -> (r: usize)
    requires
        from <= cs@.len(),
    ensures
        r == spec_find(cs@, sep, from as int),
        from <= r <= cs@.len(),
        r < cs@.len() ==> cs@[r as int] == sep,
        forall|j: int| from <= j < r ==> cs@[j] != sep,
{
    let n: usize = cs.len();
    let mut i: usize = from;
    while i < n && cs[i] != sep
        invariant
            from <= i <= n,
            n == cs@.len(),
            forall|j: int| from <= j < i ==> cs@[j] != sep,
        decreases n - i,
    {
        i = i + 1;
    }
    proof {
        lemma_spec_find_unique(cs@, sep, from as int, i as int);
    }
    i
}

/// The characters in the index range `[from, to)`.
pub fn subvec(cs: &Vec<char>, from: usize, to: usize) -> (r: Vec<char>)
    requires
        from <= to <= cs@.len(),
    ensures
        r@ == cs@.subrange(from as int, to as int),
{
    let mut out: Vec<char> = Vec::new();
    let mut i: usize = from;
    while i < to
        invariant
            from <= i <= to <= cs@.len(),
            out@ =~= cs@.subrange(from as int, i as int),
        decreases to - i,
    {
        out.push(cs[i]);
        proof {
            assert(out@ =~= cs@.subrange(from as int, i + 1));
        }
        i = i + 1;
    }
    out
}

/// The fields of the sequence split on a separator; a separator at the end
/// yields a trailing empty field, and the result is never empty.
pub open spec fn spec_split_on(s: Seq<char>, sep: char) -> Seq<Seq<char>>
    decreases s.len() via spec_split_on_decreases
{
    let i = spec_find(s, sep, 0);
    if i == s.len() {
        seq![s]
    } else {
        seq![s.subrange(0, i)] + spec_split_on(s.subrange(i + 1, s.len() as int), sep)
    }
}

#[via_fn]
proof fn spec_split_on_decreases(s: Seq<char>, sep: char) {
    lemma_spec_find_bounds(s, sep, 0);
}

/// The fields of the character vector split on a separator.
pub fn split_on(cs: &Vec<char>, sep: char) -> (r: Vec<Vec<char>>)
    ensures
        r@.map_values(|v: Vec<char>| v@) == spec_split_on(cs@, sep),
        r@.len() >= 1,
{
    let n: usize = cs.len();
    let mut parts: Vec<Vec<char>> = Vec::new();
    let mut start: usize = 0;
    proof {
        assert(cs@.subrange(0, n as int) =~= cs@);
        assert(parts@.map_values(|v: Vec<char>| v@) + spec_split_on(cs@, sep)
            =~= spec_split_on(cs@, sep));
    }
    loop
        invariant_except_break
            start <= n,
            n == cs@.len(),
            spec_split_on(cs@, sep) == parts@.map_values(|v: Vec<char>| v@)
                + spec_split_on(cs@.subrange(start as int, n as int), sep),
        ensures
            spec_split_on(cs@, sep) == parts@.map_values(|v: Vec<char>| v@),
            parts@.len() >= 1,
        decreases n - start + 1,
    {
        proof {
            assert(parts@.map_values(|v: Vec<char>| v@)
                + spec_split_on(cs@.subrange(start as int, n as int), sep)
                =~= spec_split_on(cs@, sep));
        }
        let p: usize = find_char(cs, sep, start);
        let field = subvec(cs, start, p);
        let ghost suffix = cs@.subrange(start as int, n as int);
        proof {
            // the scan position within the suffix matches the spec's find
            lemma_spec_find_unique(suffix, sep, 0, p - start);
            assert(field@ =~= suffix.subrange(0, p - start));
        }
        let ghost prev_parts = parts@;
        parts.push(field);
        if p == n {
            proof {
                assert(spec_split_on(suffix, sep) == seq![suffix.subrange(0, p - start)]);
                assert(field@ =~= suffix);
                assert(parts@.map_values(|v: Vec<char>| v@)
                    =~= prev_parts.map_values(|v: Vec<char>| v@) + seq![field@]);
                assert(parts@.map_values(|v: Vec<char>| v@) =~= spec_split_on(cs@, sep));
            }
            break;
        }
        proof {
            let rest = suffix.subrange(p - start + 1, suffix.len() as int);
            assert(spec_split_on(suffix, sep)
                == seq![suffix.subrange(0, p - start)] + spec_split_on(rest, sep));
            assert(rest =~= cs@.subrange(p + 1, n as int));
            assert(parts@.map_values(|v: Vec<char>| v@)
                =~= prev_parts.map_values(|v: Vec<char>| v@) + seq![field@]);
            assert(parts@.map_values(|v: Vec<char>| v@)
                + spec_split_on(cs@.subrange(p + 1, n as int), sep)
                =~= spec_split_on(cs@, sep));
        }
        start = p + 1;
    }
    parts
}

/// A line with one trailing carriage return removed, as `str::lines` does
/// for newline-terminated lines.
pub open spec fn spec_strip_cr(l: Seq<char>) -> Seq<char> {
    if l.len() > 0 && l.last() == '\r' {
        l.drop_last()
    } else {
        l
    }
}

/// The lines of the text, as `str::lines` yields them: fields split on
/// newline, a trailing empty field dropped, and one carriage return
/// stripped from the end of every newline-terminated line.
pub open spec fn spec_lines(s: Seq<char>) -> Seq<Seq<char>> {
    let parts = spec_split_on(s, '\n');
    if parts.last().len() == 0 {
        parts.drop_last().map_values(|l: Seq<char>| spec_strip_cr(l))
    } else {
        parts.drop_last().map_values(|l: Seq<char>| spec_strip_cr(l)).push(parts.last())
    }
}

fn strip_cr_exec(l: Vec<char>) -> (r: Vec<char>)
    ensures
        r@ == spec_strip_cr(l@),
{
    let mut v = l;
    let n: usize = v.len();
    if n > 0 && v[n - 1] == '\r' {
        proof {
            assert(v@[n - 1] == v@.last());
        }
        let ghost before = v@;
        let _ = v.pop();
        proof {
            assert(v@ =~= before.drop_last());
        }
    }
    v
}

/// A copy of the character vector.
pub fn clone_chars(v: &Vec<char>) -> (r: Vec<char>)
    ensures
        r@ == v@,
{
    let r = subvec(v, 0, v.len());
    proof {
        assert(v@.subrange(0, v@.len() as int) =~= v@);
    }
    r
}

/// The lines of the character vector, as `str::lines` yields them.
pub fn lines_of(cs: &Vec<char>) -> (r: Vec<Vec<char>>)
    ensures
        r@.map_values(|v: Vec<char>| v@) == spec_lines(cs@),
{
    let parts = split_on(cs, '\n');
    let ghost parts0 = parts@.map_values(|v: Vec<char>| v@);
    let nparts: usize = parts.len();
    let terminated: bool = parts[nparts - 1].len() == 0;
    proof {
        assert(parts0.last() == parts@[nparts - 1]@);
    }
    let mut out: Vec<Vec<char>> = Vec::new();
    let mut i: usize = 0;
    while i < nparts - 1
        invariant
            0 <= i <= nparts - 1,
            nparts == parts@.len(),
            nparts >= 1,
            parts0 == parts@.map_values(|v: Vec<char>| v@),
            out@.len() == i,
            forall|j: int| 0 <= j < i
                ==> #[trigger] out@[j]@ == spec_strip_cr(parts0.drop_last()[j]),
        decreases nparts - 1 - i,
    {
        let line = clone_chars(&parts[i]);
        let stripped = strip_cr_exec(line);
        out.push(stripped);
        proof {
            assert(parts0.drop_last()[i as int] == parts0[i as int]);
        }
        i = i + 1;
    }
    if !terminated {
        // the final, unterminated line keeps any trailing carriage return
        let t = clone_chars(&parts[nparts - 1]);
        out.push(t);
        proof {
            let stripped_init = parts0.drop_last().map_values(|l: Seq<char>| spec_strip_cr(l));
            assert(out@.map_values(|v: Vec<char>| v@) =~= stripped_init.push(parts0.last()));
            assert(out@.map_values(|v: Vec<char>| v@) =~= spec_lines(cs@));
        }
    } else {
        proof {
            let stripped_init = parts0.drop_last().map_values(|l: Seq<char>| spec_strip_cr(l));
            assert(out@.map_values(|v: Vec<char>| v@) =~= stripped_init);
            assert(out@.map_values(|v: Vec<char>| v@) =~= spec_lines(cs@));
        }
    }
    out
}

/// The decimal digit character for a value below ten.
pub open spec fn spec_digit_char(d: int) -> char {
    if d == 0 { '0' }
    else if d == 1 { '1' }
    else if d == 2 { '2' }
    else if d == 3 { '3' }
    else if d == 4 { '4' }
    else if d == 5 { '5' }
    else if d == 6 { '6' }
    else if d == 7 { '7' }
    else if d == 8 { '8' }
    else { '9' }
}

fn digit_char(d: u64) -> (c: char)
    requires
        d < 10,
    ensures
        c == spec_digit_char(d as int),
{
    if d == 0 { '0' }
    else if d == 1 { '1' }
    else if d == 2 { '2' }
    else if d == 3 { '3' }
    else if d == 4 { '4' }
    else if d == 5 { '5' }
    else if d == 6 { '6' }
    else if d == 7 { '7' }
    else if d == 8 { '8' }
    else { '9' }
}

/// The decimal representation of a natural number, most significant digit
/// first, with no leading zeros (a lone zero for zero).
pub open spec fn spec_u64_dec(n: nat) -> Seq<char>
    decreases n,
{
    if n < 10 {
        seq![spec_digit_char(n as int)]
    } else {
        spec_u64_dec(n / 10).push(spec_digit_char((n % 10) as int))
    }
}

/// The decimal representation of an integer, with a leading minus sign
/// when negative.
pub open spec fn spec_i64_dec(n: int) -> Seq<char> {
    if n < 0 {
        seq!['-'] + spec_u64_dec((-n) as nat)
    } else {
        spec_u64_dec(n as nat)
    }
}

pub open spec fn seq_rev<A>(s: Seq<A>) -> Seq<A> {
    Seq::new(s.len(), |i: int| s[s.len() - 1 - i])
}

/// Appends the decimal digits of `n` to `out`.
pub fn append_u64_dec(out: &mut String, n: u64)
    ensures
        final(out)@ == old(out)@ + spec_u64_dec(n as nat),
{
    let mut digits: Vec<char> = Vec::new();
    let mut m: u64 = n;
    proof {
        assert(seq_rev(digits@) =~= Seq::<char>::empty());
        assert(spec_u64_dec(n as nat) =~= spec_u64_dec(m as nat) + seq_rev(digits@));
    }
    loop
        invariant_except_break
            spec_u64_dec(n as nat) == spec_u64_dec(m as nat) + seq_rev(digits@),
        ensures
            spec_u64_dec(n as nat) == seq_rev(digits@),
        decreases m,
    {
        let d = m % 10;
        let c = digit_char(d);
        let ghost prev = digits@;
        digits.push(c);
        let next: u64 = m / 10;
        proof {
            assert(seq_rev(digits@) =~= seq![c] + seq_rev(prev));
            if next == 0 {
                assert(m < 10);
                assert(spec_u64_dec(m as nat) =~= seq![c]);
                assert(seq_rev(digits@) =~= spec_u64_dec(m as nat) + seq_rev(prev));
                assert(spec_u64_dec(n as nat) =~= seq_rev(digits@));
            } else {
                assert(m >= 10);
                assert(spec_u64_dec(m as nat)
                    == spec_u64_dec((m / 10) as nat).push(spec_digit_char((m % 10) as int)));
                assert(spec_u64_dec(m as nat) =~= spec_u64_dec(next as nat) + seq![c]);
                assert(spec_u64_dec(next as nat) + seq_rev(digits@)
                    =~= spec_u64_dec(m as nat) + seq_rev(prev));
                assert(spec_u64_dec(n as nat)
                    =~= spec_u64_dec(next as nat) + seq_rev(digits@));
            }
        }
        if next == 0 {
            break;
        }
        m = next;
    }
    let len: usize = digits.len();
    let mut k: usize = 0;
    while k < len
        invariant
            0 <= k <= len,
            len == digits@.len(),
            spec_u64_dec(n as nat) == seq_rev(digits@),
            out@ =~= old(out)@ + seq_rev(digits@).subrange(0, k as int),
        decreases len - k,
    {
        push_char(out, digits[len - 1 - k]);
        proof {
            assert(seq_rev(digits@)[k as int] == digits@[len - 1 - k]);
            assert(out@ =~= old(out)@ + seq_rev(digits@).subrange(0, k + 1));
        }
        k = k + 1;
    }
    proof {
        assert(seq_rev(digits@).subrange(0, len as int) =~= seq_rev(digits@));
        assert(out@ =~= old(out)@ + spec_u64_dec(n as nat));
    }
}

/// Appends the decimal digits of `n`, sign included, to `out`.
pub fn append_i64_dec(out: &mut String, n: i64)
    ensures
        final(out)@ == old(out)@ + spec_i64_dec(n as int),
{
    if n < 0 {
        push_char(out, '-');
        let mag: u64 = if n == i64::MIN {
            9223372036854775808u64
        } else {
            (-n) as u64
        };
        proof {
            assert(mag as nat == (-(n as int)) as nat);
        }
        append_u64_dec(out, mag);
        proof {
            assert(out@ =~= old(out)@ + spec_i64_dec(n as int));
        }
    } else {
        append_u64_dec(out, n as u64);
    }
}

} // verus!
