//! Text helpers over strings seen as sequences of characters.

use vstd::prelude::*;
use vstd::string::*;

verus! {

/// `String::push` appends one character.
pub assume_specification[ String::push ](s: &mut String, c: char)
    ensures
        final(s)@ == old(s)@.push(c),
;

/// The character of a decimal digit.
pub open spec fn digit_char(d: nat) -> char
    recommends
        d < 10,
{
    if d == 0 {
        '0'
    } else if d == 1 {
        '1'
    } else if d == 2 {
        '2'
    } else if d == 3 {
        '3'
    } else if d == 4 {
        '4'
    } else if d == 5 {
        '5'
    } else if d == 6 {
        '6'
    } else if d == 7 {
        '7'
    } else if d == 8 {
        '8'
    } else {
        '9'
    }
}

/// The character of a hexadecimal digit, in lower case.
pub open spec fn hex_digit(d: int) -> char
    recommends
        0 <= d < 16,
{
    if d == 0 {
        '0'
    } else if d == 1 {
        '1'
    } else if d == 2 {
        '2'
    } else if d == 3 {
        '3'
    } else if d == 4 {
        '4'
    } else if d == 5 {
        '5'
    } else if d == 6 {
        '6'
    } else if d == 7 {
        '7'
    } else if d == 8 {
        '8'
    } else if d == 9 {
        '9'
    } else if d == 10 {
        'a'
    } else if d == 11 {
        'b'
    } else if d == 12 {
        'c'
    } else if d == 13 {
        'd'
    } else if d == 14 {
        'e'
    } else {
        'f'
    }
}

/// The decimal numeral of a natural number, without leading zeros.
pub open spec fn decimal(n: nat) -> Seq<char>
    decreases n,
{
    if n < 10 {
        seq![digit_char(n)]
    } else {
        decimal(n / 10).push(digit_char(n % 10))
    }
}

/// The decimal numeral of an integer, with `-` before a negative one.
pub open spec fn signed_decimal(i: int) -> Seq<char> {
    if i < 0 {
        seq!['-'] + decimal((-i) as nat)
    } else {
        decimal(i as nat)
    }
}

/// The character of a decimal digit.
fn digit_of(d: u64) -> (c: char)
    requires
        d < 10,
    ensures
        c == digit_char(d as nat),
{
    if d == 0 {
        '0'
    } else if d == 1 {
        '1'
    } else if d == 2 {
        '2'
    } else if d == 3 {
        '3'
    } else if d == 4 {
        '4'
    } else if d == 5 {
        '5'
    } else if d == 6 {
        '6'
    } else if d == 7 {
        '7'
    } else if d == 8 {
        '8'
    } else {
        '9'
    }
}

/// Appends the decimal numeral of `n` to `out`.
pub fn push_decimal(out: &mut String, n: u64)
    ensures
        final(out)@ == old(out)@ + decimal(n as nat),
    decreases n,
{
    if n >= 10 {
        push_decimal(out, n / 10);
    }
    out.push(digit_of(n % 10));
    proof {
        assert(final(out)@ =~= old(out)@ + decimal(n as nat));
    }
}

/// Appends the decimal numeral of `i` to `out`, with `-` before a negative one.
pub fn push_signed_decimal(out: &mut String, i: i64)
    ensures
        final(out)@ == old(out)@ + signed_decimal(i as int),
{
    if i < 0 {
        out.push('-');
        let magnitude: u64 = if i == i64::MIN {
            9223372036854775808u64
        } else {
            (-i) as u64
        };
        push_decimal(out, magnitude);
        proof {
            assert(final(out)@ =~= old(out)@ + signed_decimal(i as int));
        }
    } else {
        push_decimal(out, i as u64);
    }
}

/// The decimal numeral of `n`.
pub fn decimal_string(n: u64) -> (s: String)
    ensures
        s@ == decimal(n as nat),
{
    let mut out = String::new();
    push_decimal(&mut out, n);
    proof {
        assert(out@ =~= decimal(n as nat));
    }
    out
}

/// The characters of a string, one by one.
pub fn chars_of(s: &str) -> (chars: Vec<char>)
    ensures
        chars@ == s@,
{
    let mut chars: Vec<char> = Vec::new();
    for c in it: s.chars()
        invariant
            it.seq() == s@,
            chars@ == s@.take(it.index() as int),
    {
        chars.push(c);
        proof {
            assert(chars@ =~= s@.take(it.index() + 1));
        }
    }
    proof {
        assert(chars@ =~= s@);
    }
    chars
}

/// The number of characters of `s` before the first `stop`, or the length
/// of `s` where it has none.
pub open spec fn run_before(s: Seq<char>, stop: char) -> int
    decreases s.len(),
{
    if s.len() == 0 || s[0] == stop {
        0
    } else {
        1 + run_before(s.skip(1), stop)
    }
}

/// A line without the carriage return that stood before its line feed.
pub open spec fn strip_cr(line: Seq<char>) -> Seq<char> {
    if line.len() > 0 && line.last() == '\r' {
        line.drop_last()
    } else {
        line
    }
}

/// The lines of a text. A line ends at a line feed, or at a carriage return
/// directly followed by one; neither belongs to the line. The last line
/// needs no line ending, and a text that ends in one has no empty line
/// after it.
pub open spec fn lines_of(s: Seq<char>) -> Seq<Seq<char>>
    decreases s.len(),
    via lines_of_decreases
{
    if s.len() == 0 {
        Seq::empty()
    } else if run_before(s, '\n') == s.len() {
        seq![s]
    } else {
        seq![strip_cr(s.take(run_before(s, '\n')))] + lines_of(s.skip(run_before(s, '\n') + 1))
    }
}

#[via_fn]
proof fn lines_of_decreases(s: Seq<char>) {
    lemma_run_before_bounds(s, '\n');
}

/// The fields of a text that a separator divides: what stands before the
/// first separator, between two separators and behind the last one. A text
/// without separator is one field, an empty text one empty field.
pub open spec fn fields_of(s: Seq<char>, separator: char) -> Seq<Seq<char>>
    decreases s.len(),
    via fields_of_decreases
{
    if run_before(s, separator) == s.len() {
        seq![s]
    } else {
        seq![s.take(run_before(s, separator))] + fields_of(
            s.skip(run_before(s, separator) + 1),
            separator,
        )
    }
}

#[via_fn]
proof fn fields_of_decreases(s: Seq<char>, separator: char) {
    lemma_run_before_bounds(s, separator);
}

/// Where the run before the first `stop` ends: within the text, at a
/// `stop` unless at the end, and behind no `stop`.
pub proof fn lemma_run_before_bounds(s: Seq<char>, stop: char)
    ensures
        0 <= run_before(s, stop) <= s.len(),
        run_before(s, stop) < s.len() ==> s[run_before(s, stop)] == stop,
        forall|i: int| 0 <= i < run_before(s, stop) ==> s[i] != stop,
    decreases s.len(),
{
    if s.len() == 0 || s[0] == stop {
    } else {
        lemma_run_before_bounds(s.skip(1), stop);
        assert forall|i: int| 0 <= i < run_before(s, stop) implies s[i] != stop by {
            if i > 0 {
                assert(s.skip(1)[i - 1] == s[i]);
            }
        }
    }
}

/// Where a text without `stop` is followed by a rest, the run before the
/// first `stop` ends where the rest says.
proof fn lemma_run_before_after(current: Seq<char>, rest: Seq<char>, stop: char)
    requires
        forall|i: int| 0 <= i < current.len() ==> current[i] != stop,
    ensures
        run_before(current + rest, stop) == current.len() + run_before(rest, stop),
    decreases current.len(),
{
    let whole = current + rest;
    if current.len() == 0 {
        assert(whole =~= rest);
    } else {
        assert(whole[0] == current[0]);
        assert(whole.skip(1) =~= current.skip(1) + rest);
        assert forall|i: int| 0 <= i < current.skip(1).len() implies current.skip(1)[i]
            != stop by {
            assert(current.skip(1)[i] == current[i + 1]);
        }
        lemma_run_before_after(current.skip(1), rest, stop);
    }
}

/// The lines of a text whose first line has been read as far as `current`.
proof fn lemma_lines_step(current: Seq<char>, rest: Seq<char>)
    requires
        forall|i: int| 0 <= i < current.len() ==> current[i] != '\n',
    ensures
        rest.len() == 0 ==> lines_of(current + rest) == if current.len() == 0 {
            Seq::<Seq<char>>::empty()
        } else {
            seq![current]
        },
        rest.len() > 0 && rest[0] == '\n' ==> lines_of(current + rest) == seq![strip_cr(current)]
            + lines_of(rest.skip(1)),
{
    let whole = current + rest;
    lemma_run_before_after(current, rest, '\n');
    if rest.len() == 0 {
        assert(whole =~= current);
    } else if rest[0] == '\n' {
        assert(run_before(whole, '\n') == current.len());
        assert(whole.take(current.len() as int) =~= current);
        assert(whole.skip(current.len() as int + 1) =~= rest.skip(1));
    }
}

/// The fields of a text whose first field has been read as far as
/// `current`.
proof fn lemma_fields_step(current: Seq<char>, rest: Seq<char>, separator: char)
    requires
        forall|i: int| 0 <= i < current.len() ==> current[i] != separator,
    ensures
        rest.len() == 0 ==> fields_of(current + rest, separator) == seq![current],
        rest.len() > 0 && rest[0] == separator ==> fields_of(current + rest, separator)
            == seq![current] + fields_of(rest.skip(1), separator),
{
    let whole = current + rest;
    lemma_run_before_after(current, rest, separator);
    if rest.len() == 0 {
        assert(whole =~= current);
    } else if rest[0] == separator {
        assert(run_before(whole, separator) == current.len());
        assert(whole.take(current.len() as int) =~= current);
        assert(whole.skip(current.len() as int + 1) =~= rest.skip(1));
    }
}

/// Split a text into the fields that a separator divides.
pub fn split_fields(text: &str, separator: char) -> (fields: Vec<String>)
    ensures
        fields.deep_view() == fields_of(text@, separator),
{
    let ghost whole = text@;
    let mut fields: Vec<String> = Vec::new();
    let mut current: Vec<char> = Vec::new();
    proof {
        assert(fields.deep_view() =~= Seq::<Seq<char>>::empty());
        assert(current@ + whole.skip(0) =~= whole);
        assert(fields.deep_view() + fields_of(whole, separator) =~= fields_of(whole, separator));
    }
    for c in it: text.chars()
        invariant
            it.seq() == whole,
            whole == text@,
            forall|i: int| 0 <= i < current.len() ==> current@[i] != separator,
            fields_of(whole, separator) == fields.deep_view() + fields_of(
                current@ + whole.skip(it.index() as int),
                separator,
            ),
    {
        let ghost rest = whole.skip(it.index() as int);
        let ghost done = fields.deep_view();
        proof {
            assert(rest[0] == c);
            assert(rest.skip(1) =~= whole.skip(it.index() + 1));
            lemma_fields_step(current@, rest, separator);
        }
        if c == separator {
            let field = string_of_range(&current, 0, current.len());
            proof {
                assert(field@ =~= current@);
            }
            fields.push(field);
            current.clear();
            proof {
                assert(fields.deep_view() =~= done.push(field@));
                assert(current@ + rest.skip(1) =~= rest.skip(1));
                assert(done + (seq![field@] + fields_of(rest.skip(1), separator)) =~= done.push(
                    field@,
                ) + fields_of(rest.skip(1), separator));
            }
        } else {
            let ghost before = current@;
            current.push(c);
            proof {
                assert(current@ + rest.skip(1) =~= before + rest);
            }
        }
    }
    let ghost done = fields.deep_view();
    proof {
        assert(whole.skip(whole.len() as int) =~= Seq::<char>::empty());
        lemma_fields_step(current@, Seq::<char>::empty(), separator);
    }
    let field = string_of_range(&current, 0, current.len());
    proof {
        assert(field@ =~= current@);
    }
    fields.push(field);
    proof {
        assert(fields.deep_view() =~= done.push(field@));
        assert(done + seq![current@] =~= done.push(current@));
    }
    fields
}

/// Split a text into its lines.
pub fn split_lines(contents: &str) -> (lines: Vec<String>)
    ensures
        lines.deep_view() == lines_of(contents@),
{
    let ghost text = contents@;
    let mut lines: Vec<String> = Vec::new();
    let mut current: Vec<char> = Vec::new();
    proof {
        assert(lines.deep_view() =~= Seq::<Seq<char>>::empty());
        assert(current@ + text.skip(0) =~= text);
    }
    for c in it: contents.chars()
        invariant
            it.seq() == text,
            text == contents@,
            forall|i: int| 0 <= i < current.len() ==> current@[i] != '\n',
            lines_of(text) == lines.deep_view() + lines_of(current@ + text.skip(it.index() as int)),
    {
        let ghost rest = text.skip(it.index() as int);
        let ghost done = lines.deep_view();
        proof {
            assert(rest[0] == c);
            assert(rest.skip(1) =~= text.skip(it.index() + 1));
            lemma_lines_step(current@, rest);
        }
        if c == '\n' {
            let mut n = current.len();
            if n > 0 && current[n - 1] == '\r' {
                n = n - 1;
            }
            let line = string_of_range(&current, 0, n);
            proof {
                assert(line@ =~= strip_cr(current@));
            }
            lines.push(line);
            current.clear();
            proof {
                assert(lines.deep_view() =~= done.push(line@));
                assert(current@ + rest.skip(1) =~= rest.skip(1));
                assert(done + (seq![line@] + lines_of(rest.skip(1))) =~= done.push(line@)
                    + lines_of(rest.skip(1)));
            }
        } else {
            let ghost before = current@;
            current.push(c);
            proof {
                assert(current@ + rest.skip(1) =~= before + rest);
            }
        }
    }
    let ghost done = lines.deep_view();
    proof {
        assert(text.skip(text.len() as int) =~= Seq::<char>::empty());
        lemma_lines_step(current@, Seq::<char>::empty());
    }
    if current.len() > 0 {
        let line = string_of_range(&current, 0, current.len());
        proof {
            assert(line@ =~= current@);
        }
        lines.push(line);
        proof {
            assert(lines.deep_view() =~= done.push(line@));
            assert(done + seq![current@] =~= done.push(current@));
        }
    } else {
        proof {
            assert(done + Seq::<Seq<char>>::empty() =~= done);
        }
    }
    lines
}

/// Whether `needle` stands in `hay` at position `at`.
pub open spec fn occurs_at(needle: Seq<char>, hay: Seq<char>, at: int) -> bool {
    0 <= at && at + needle.len() <= hay.len() && hay.subrange(at, at + needle.len()) == needle
}

/// Whether `needle` stands somewhere in `hay`.
pub open spec fn occurs_in(needle: Seq<char>, hay: Seq<char>) -> bool {
    exists|at: int| occurs_at(needle, hay, at)
}

/// Whether `needle` stands in `hay` at position `at`.
fn matches_at(needle: &Vec<char>, hay: &Vec<char>, at: usize) -> (found: bool)
    requires
        at + needle.len() <= hay.len(),
    ensures
        found == occurs_at(needle@, hay@, at as int),
{
    let mut i: usize = 0;
    while i < needle.len()
        invariant
            i <= needle.len(),
            at + needle.len() <= hay.len(),
            forall|j: int| 0 <= j < i ==> hay@[at + j] == needle@[j],
        decreases needle.len() - i,
    {
        if hay[at + i] != needle[i] {
            proof {
                assert(hay@.subrange(at as int, at + needle.len())[i as int] == hay@[at + i]);
            }
            return false;
        }
        i = i + 1;
    }
    proof {
        assert(hay@.subrange(at as int, at + needle.len()) =~= needle@);
    }
    true
}

/// Whether `s` begins with `prefix`.
pub fn starts_with(s: &str, prefix: &str) -> (found: bool)
    ensures
        found == prefix@.is_prefix_of(s@),
{
    let hay = chars_of(s);
    let needle = chars_of(prefix);
    if needle.len() > hay.len() {
        return false;
    }
    matches_at(&needle, &hay, 0)
}

/// Whether `s` ends with `suffix`.
pub fn ends_with(s: &str, suffix: &str) -> (found: bool)
    ensures
        found == suffix@.is_suffix_of(s@),
{
    let hay = chars_of(s);
    let needle = chars_of(suffix);
    if needle.len() > hay.len() {
        return false;
    }
    matches_at(&needle, &hay, hay.len() - needle.len())
}

/// Whether `needle` stands somewhere in `s`.
pub fn contains(s: &str, needle: &str) -> (found: bool)
    ensures
        found == occurs_in(needle@, s@),
{
    let hay = chars_of(s);
    let pat = chars_of(needle);
    if pat.len() > hay.len() {
        return false;
    }
    let last: usize = hay.len() - pat.len();
    let mut at: usize = 0;
    while at < last
        invariant
            at <= last,
            last == hay.len() - pat.len(),
            pat.len() <= hay.len(),
            hay@ == s@,
            pat@ == needle@,
            forall|k: int| 0 <= k < at ==> !occurs_at(pat@, hay@, k),
        decreases last - at,
    {
        if matches_at(&pat, &hay, at) {
            return true;
        }
        at = at + 1;
    }
    matches_at(&pat, &hay, last)
}

/// Longest snippet, in characters, that is kept whole.
pub const SNIPPET_LIMIT: usize = 200;

/// A line as it is quoted: whole where it has at most 200 characters, else
/// its first 200 characters and an ellipsis.
pub open spec fn clipped(line: Seq<char>) -> Seq<char> {
    if line.len() > SNIPPET_LIMIT {
        line.take(SNIPPET_LIMIT as int) + " ..."@
    } else {
        line
    }
}

/// Clip a line to the length at which it is quoted.
pub fn clip(line: &str) -> (out: String)
    ensures
        out@ == clipped(line@),
{
    if line.unicode_len() > SNIPPET_LIMIT {
        let mut out = line.substring_char(0, SNIPPET_LIMIT).to_string();
        out.append(" ...");
        proof {
            assert(line@.subrange(0, SNIPPET_LIMIT as int) =~= line@.take(SNIPPET_LIMIT as int));
        }
        out
    } else {
        line.to_string()
    }
}

/// What `str::to_lowercase` returns for a text.
pub uninterp spec fn lowercase(s: Seq<char>) -> Seq<char>;

/// What `str::to_uppercase` returns for a text.
pub uninterp spec fn uppercase(s: Seq<char>) -> Seq<char>;

/// What `str::trim` returns for a text.
pub uninterp spec fn trimmed(s: Seq<char>) -> Seq<char>;

/// `str::to_lowercase`: the lowercase equivalent of the text, by Unicode's
/// rules. Nothing is stated of the result but that it depends on the text
/// alone.
#[verifier::external_body]
pub(crate) fn to_lowercase(s: &str) -> (lower: String)
    ensures
        lower@ == lowercase(s@),
{
    s.to_lowercase()
}

/// `str::to_uppercase`: the uppercase equivalent of the text, by Unicode's
/// rules. Nothing is stated of the result but that it depends on the text
/// alone.
#[verifier::external_body]
pub(crate) fn to_uppercase(s: &str) -> (upper: String)
    ensures
        upper@ == uppercase(s@),
{
    s.to_uppercase()
}

/// `str::trim`: the text without leading and trailing whitespace, as
/// Unicode defines whitespace. Nothing is stated of the result but that it
/// depends on the text alone.
#[verifier::external_body]
pub(crate) fn trim(s: &str) -> (inner: String)
    ensures
        inner@ == trimmed(s@),
{
    s.trim().to_string()
}

/// The string made of the characters of `chars` from `from` up to `to`.
pub fn string_of_range(chars: &Vec<char>, from: usize, to: usize) -> (s: String)
    requires
        from <= to <= chars.len(),
    ensures
        s@ == chars@.subrange(from as int, to as int),
{
    let mut s = String::new();
    let mut i: usize = from;
    while i < to
        invariant
            from <= i <= to <= chars.len(),
            s@ == chars@.subrange(from as int, i as int),
        decreases to - i,
    {
        s.push(chars[i]);
        proof {
            assert(s@ =~= chars@.subrange(from as int, i + 1));
        }
        i = i + 1;
    }
    s
}

/// Whether two strings hold the same characters.
pub fn same_text(a: &str, b: &str) -> (same: bool)
    ensures
        same == (a@ == b@),
{
    let left = chars_of(a);
    let right = chars_of(b);
    if left.len() != right.len() {
        return false;
    }
    let found = matches_at(&left, &right, 0);
    proof {
        assert(right@.subrange(0, right@.len() as int) =~= right@);
    }
    found
}

/// The view of an optional text.
pub open spec fn text_view(text: Option<String>) -> Option<Seq<char>> {
    match text {
        Some(text) => Some(text@),
        None => None,
    }
}

/// The view of an optional borrowed text.
pub open spec fn str_view(text: Option<&str>) -> Option<Seq<char>> {
    match text {
        Some(text) => Some(text@),
        None => None,
    }
}

} // verus!
