//! Character-level text model: the specifications of the string operations
//! that the launcher relies on (trimming, lines, joining, searching,
//! replacing, decimal numbers) and verified implementations of them.
use vstd::prelude::*;

verus! {

// ---------------------------------------------------------------------------
// Specifications
// ---------------------------------------------------------------------------

/// The views of a sequence of strings.
pub open spec fn views(v: Seq<String>) -> Seq<Seq<char>> {
    v.map_values(|x: String| x@)
}

/// Unicode `White_Space`, the property that `char::is_whitespace` tests.
pub open spec fn is_whitespace(c: char) -> bool {
    let u = c as u32;
    (0x9 <= u && u <= 0xd) || u == 0x20 || u == 0x85 || u == 0xa0 || u == 0x1680 || (0x2000 <= u
        && u <= 0x200a) || u == 0x2028 || u == 0x2029 || u == 0x202f || u == 0x205f || u == 0x3000
}

pub open spec fn is_ascii_digit(c: char) -> bool {
    '0' <= c && c <= '9'
}

pub open spec fn is_ascii_alphanumeric(c: char) -> bool {
    ('a' <= c && c <= 'z') || ('A' <= c && c <= 'Z') || is_ascii_digit(c)
}

/// Leading whitespace removed.
pub open spec fn trim_start(s: Seq<char>) -> Seq<char>
    decreases s.len(),
{
    if s.len() > 0 && is_whitespace(s[0]) {
        trim_start(s.drop_first())
    } else {
        s
    }
}

/// Trailing whitespace removed.
pub open spec fn trim_end(s: Seq<char>) -> Seq<char>
    decreases s.len(),
{
    if s.len() > 0 && is_whitespace(s.last()) {
        trim_end(s.drop_last())
    } else {
        s
    }
}

/// Leading and trailing whitespace removed (`str::trim`).
pub open spec fn trim(s: Seq<char>) -> Seq<char> {
    trim_end(trim_start(s))
}

pub open spec fn starts_with(s: Seq<char>, prefix: Seq<char>) -> bool {
    prefix.len() <= s.len() && s.subrange(0, prefix.len() as int) == prefix
}

pub open spec fn ends_with(s: Seq<char>, suffix: Seq<char>) -> bool {
    suffix.len() <= s.len() && s.subrange(s.len() - suffix.len(), s.len() as int) == suffix
}

/// `pat` occurs in `s` at position `i`.
pub open spec fn occurs_at(s: Seq<char>, pat: Seq<char>, i: int) -> bool {
    0 <= i && i + pat.len() <= s.len() && s.subrange(i, i + pat.len()) == pat
}

/// `str::contains` with a string pattern.
pub open spec fn contains(s: Seq<char>, pat: Seq<char>) -> bool {
    exists|i: int| occurs_at(s, pat, i)
}

/// Position of the first `c` in `s`, or `s.len()` when there is none.
pub open spec fn find_char(s: Seq<char>, c: char) -> nat
    decreases s.len(),
{
    if s.len() == 0 {
        0
    } else if s[0] == c {
        0
    } else {
        1 + find_char(s.drop_first(), c)
    }
}

/// A line without the carriage return that preceded its line feed.
pub open spec fn strip_cr(s: Seq<char>) -> Seq<char> {
    if s.len() > 0 && s.last() == '\r' {
        s.drop_last()
    } else {
        s
    }
}

/// `str::lines`: split at `\n` (a `\r` right before it is dropped), with no
/// empty line after a final line feed.
pub open spec fn lines(s: Seq<char>) -> Seq<Seq<char>>
    decreases s.len(),
{
    if s.len() == 0 {
        seq![]
    } else {
        let i = find_char(s, '\n');
        if i >= s.len() {
            seq![s]
        } else {
            seq![strip_cr(s.take(i as int))] + lines(s.skip(i as int + 1))
        }
    }
}

/// The parts joined with `sep` between consecutive parts (`[..].join(sep)`).
pub open spec fn join(parts: Seq<Seq<char>>, sep: Seq<char>) -> Seq<char>
    decreases parts.len(),
{
    if parts.len() == 0 {
        seq![]
    } else if parts.len() == 1 {
        parts[0]
    } else {
        join(parts.drop_last(), sep) + sep + parts.last()
    }
}

/// `str::replace` with a non-empty pattern: every non-overlapping match,
/// scanning from the left, is replaced. An empty pattern leaves the text as
/// it is here, where `str::replace` would put the replacement around every
/// character; the callers never pass one.
pub open spec fn replace_all(s: Seq<char>, from: Seq<char>, to: Seq<char>) -> Seq<char>
    decreases s.len(),
{
    if s.len() == 0 || from.len() == 0 {
        s
    } else if starts_with(s, from) {
        to + replace_all(s.skip(from.len() as int), from, to)
    } else {
        seq![s[0]] + replace_all(s.drop_first(), from, to)
    }
}

/// The decimal digit of a number below ten.
pub open spec fn digit_char(d: nat) -> char {
    ((d + 48) as u32) as char
}

/// The decimal notation of `n`, as `Display` writes an unsigned integer.
pub open spec fn decimal(n: nat) -> Seq<char>
    decreases n,
{
    if n < 10 {
        seq![digit_char(n)]
    } else {
        decimal(n / 10) + seq![digit_char(n % 10)]
    }
}

/// The value of a string of decimal digits.
pub open spec fn digits_value(s: Seq<char>) -> nat
    decreases s.len(),
{
    if s.len() == 0 {
        0
    } else {
        digits_value(s.drop_last()) * 10 + ((s.last() as u32 - 48) as nat)
    }
}

pub open spec fn all_digits(s: Seq<char>) -> bool {
    forall|i: int| 0 <= i < s.len() ==> is_ascii_digit(#[trigger] s[i])
}

/// The digits that `u64::from_str` reads: the text after an optional `+`.
pub open spec fn unsigned_digits(s: Seq<char>) -> Seq<char> {
    if s.len() > 0 && s[0] == '+' {
        s.drop_first()
    } else {
        s
    }
}

/// `u64::from_str`: an optional `+`, then one or more decimal digits whose
/// value fits in 64 bits.
pub open spec fn parse_u64(s: Seq<char>) -> Option<u64> {
    let d = unsigned_digits(s);
    if d.len() > 0 && all_digits(d) && digits_value(d) <= u64::MAX {
        Some(digits_value(d) as u64)
    } else {
        None
    }
}

/// The first `n` characters (`chars().take(n)`).
pub open spec fn take_chars(s: Seq<char>, n: nat) -> Seq<char> {
    if n < s.len() {
        s.take(n as int)
    } else {
        s
    }
}


/// `s.split(c)`: the pieces between occurrences of `c` (one empty piece
/// for an empty string).
pub open spec fn split_char(s: Seq<char>, c: char) -> Seq<Seq<char>>
    decreases s.len(),
{
    let i = find_char(s, c);
    if i >= s.len() {
        seq![s]
    } else {
        seq![s.take(i as int)] + split_char(s.skip(i as int + 1), c)
    }
}

/// Every `from` replaced by `to` (`str::replace` with a character pattern).
pub open spec fn replace_char(s: Seq<char>, from: char, to: char) -> Seq<char> {
    s.map_values(|x: char| if x == from { to } else { x })
}


/// Position of the first whitespace character, or `s.len()`.
pub open spec fn find_whitespace(s: Seq<char>) -> nat
    decreases s.len(),
{
    if s.len() == 0 {
        0
    } else if is_whitespace(s[0]) {
        0
    } else {
        1 + find_whitespace(s.drop_first())
    }
}

/// `str::split_whitespace`: the maximal runs of non-whitespace characters.
pub open spec fn whitespace_tokens(s: Seq<char>) -> Seq<Seq<char>>
    decreases s.len(),
{
    let t = trim_start(s);
    if t.len() == 0 {
        seq![]
    } else {
        let k = find_whitespace(t);
        if k >= t.len() {
            seq![t]
        } else {
            proof {
                lemma_trim_start_len(s);
            }
            seq![t.take(k as int)] + whitespace_tokens(t.skip(k as int))
        }
    }
}

/// The lowercase form of a string, as `str::to_lowercase` computes it.
pub uninterp spec fn lowercase(s: Seq<char>) -> Seq<char>;


/// Lexicographic order by code point (the order of `String`'s `Ord`, since
/// UTF-8 preserves code point order).
pub open spec fn lex_le(a: Seq<char>, b: Seq<char>) -> bool
    decreases a.len(),
{
    if a.len() == 0 {
        true
    } else if b.len() == 0 {
        false
    } else if a[0] != b[0] {
        a[0] < b[0]
    } else {
        lex_le(a.drop_first(), b.drop_first())
    }
}

// ---------------------------------------------------------------------------
// Lemmas
// ---------------------------------------------------------------------------

pub proof fn lemma_find_char(s: Seq<char>, c: char)
    ensures
        find_char(s, c) <= s.len(),
        forall|j: int| 0 <= j < find_char(s, c) ==> s[j] != c,
        find_char(s, c) < s.len() ==> s[find_char(s, c) as int] == c,
    decreases s.len(),
{
    if s.len() > 0 && s[0] != c {
        lemma_find_char(s.drop_first(), c);
        assert forall|j: int| 0 <= j < find_char(s, c) implies s[j] != c by {
            if j > 0 {
                assert(s[j] == s.drop_first()[j - 1]);
            }
        }
    }
}

/// `find_char` is the first position of `c`.
pub proof fn lemma_find_char_is(s: Seq<char>, c: char, i: int)
    requires
        0 <= i <= s.len(),
        forall|j: int| 0 <= j < i ==> s[j] != c,
        i < s.len() ==> s[i] == c,
    ensures
        find_char(s, c) == i,
    decreases s.len(),
{
    if s.len() > 0 && i > 0 {
        lemma_find_char_is(s.drop_first(), c, i - 1);
    }
}

pub proof fn lemma_join_push(parts: Seq<Seq<char>>, sep: Seq<char>, p: Seq<char>)
    ensures
        join(parts.push(p), sep) == if parts.len() == 0 {
            p
        } else {
            join(parts, sep) + sep + p
        },
{
    assert(parts.push(p).drop_last() =~= parts);
}

/// A string that starts with a non-whitespace character keeps it when
/// trimmed.
/// Decimal notation uses digits only, at least one.
pub proof fn lemma_decimal_digits(n: nat)
    ensures
        decimal(n).len() > 0,
        all_digits(decimal(n)),
    decreases n,
{
    if n >= 10 {
        lemma_decimal_digits(n / 10);
        let d = decimal(n);
        let lead = decimal(n / 10);
        assert forall|i: int| 0 <= i < d.len() implies is_ascii_digit(#[trigger] d[i]) by {
            if i < lead.len() {
                assert(d[i] == lead[i]);
            }
        }
    }
}

/// A text without the separator is one part.
pub proof fn lemma_split_whole(s: Seq<char>, c: char)
    requires
        forall|i: int| 0 <= i < s.len() ==> s[i] != c,
    ensures
        split_char(s, c) == seq![s],
{
    lemma_find_char_is(s, c, s.len() as int);
}

/// Splitting around one separator splits each side.
pub proof fn lemma_split_concat(a: Seq<char>, c: char, b: Seq<char>)
    ensures
        split_char(a + seq![c] + b, c) == split_char(a, c) + split_char(b, c),
    decreases a.len(),
{
    let s = a + seq![c] + b;
    lemma_find_char(a, c);
    let i = find_char(a, c);
    if i >= a.len() {
        lemma_find_char_is(s, c, a.len() as int);
        assert(s.take(a.len() as int) =~= a);
        assert(s.skip(a.len() as int + 1) =~= b);
        assert(split_char(a, c) == seq![a]);
        assert(split_char(s, c) =~= seq![a] + split_char(b, c));
    } else {
        lemma_find_char_is(s, c, i as int);
        assert(s.take(i as int) =~= a.take(i as int));
        let rest = a.skip(i as int + 1);
        assert(s.skip(i as int + 1) =~= rest + seq![c] + b);
        lemma_split_concat(rest, c, b);
        assert(split_char(s, c) =~= seq![a.take(i as int)] + split_char(a, c).drop_first()
            + split_char(b, c)) by {
            assert(split_char(a, c) == seq![a.take(i as int)] + split_char(rest, c));
            assert(split_char(a, c).drop_first() =~= split_char(rest, c));
        }
        assert(split_char(a, c) =~= seq![a.take(i as int)] + split_char(a, c).drop_first());
    }
}

/// A text without line feeds.
pub open spec fn no_newline(s: Seq<char>) -> bool {
    forall|i: int| 0 <= i < s.len() ==> s[i] != '\n'
}

/// A line that does not end with a carriage return.
pub open spec fn no_trailing_cr(s: Seq<char>) -> bool {
    s.len() == 0 || s.last() != '\r'
}

/// The lines of a text hold no line feeds.
pub proof fn lemma_lines_no_newline(s: Seq<char>)
    ensures
        forall|k: int| 0 <= k < lines(s).len() ==> no_newline(#[trigger] lines(s)[k]),
    decreases s.len(),
{
    if s.len() > 0 {
        let i = find_char(s, '\n');
        lemma_find_char(s, '\n');
        if i < s.len() {
            lemma_lines_no_newline(s.skip(i as int + 1));
            let first = strip_cr(s.take(i as int));
            assert(no_newline(first));
            assert forall|k: int| 0 <= k < lines(s).len() implies no_newline(#[trigger] lines(s)[k]) by {
                if k > 0 {
                    assert(lines(s)[k] == lines(s.skip(i as int + 1))[k - 1]);
                }
            }
        }
    }
}

/// Joining parts from the front: the first, the separator, the rest.
pub proof fn lemma_join_front(parts: Seq<Seq<char>>, sep: Seq<char>)
    requires
        parts.len() >= 2,
    ensures
        join(parts, sep) == parts[0] + sep + join(parts.drop_first(), sep),
    decreases parts.len(),
{
    if parts.len() == 2 {
        assert(parts.drop_last() =~= seq![parts[0]]);
        assert(parts.drop_first() =~= seq![parts[1]]);
        assert(join(parts.drop_last(), sep) == parts[0]);
        assert(join(parts.drop_first(), sep) == parts[1]);
    } else {
        lemma_join_front(parts.drop_last(), sep);
        let rest = parts.drop_first();
        assert(parts.drop_last().drop_first() =~= rest.drop_last());
        assert(rest.last() == parts.last());
        assert(join(rest, sep) == join(rest.drop_last(), sep) + sep + rest.last());
        assert(join(parts, sep) =~= parts[0] + sep + join(rest, sep));
    }
}

/// Lines written with a line feed after each are read back as they were,
/// when none holds a line feed or ends with a carriage return.
pub proof fn lemma_lines_of_written(ls: Seq<Seq<char>>)
    requires
        ls.len() > 0,
        forall|k: int| 0 <= k < ls.len() ==> no_newline(#[trigger] ls[k]),
        forall|k: int| 0 <= k < ls.len() ==> no_trailing_cr(#[trigger] ls[k]),
    ensures
        lines(join(ls, "\n"@) + "\n"@) == ls,
    decreases ls.len(),
{
    reveal_strlit("\n");
    let first = ls[0];
    assert(no_newline(first));
    assert(no_trailing_cr(first));
    let rest_text = if ls.len() == 1 {
        seq![]
    } else {
        join(ls.drop_first(), "\n"@) + "\n"@
    };
    let s = join(ls, "\n"@) + "\n"@;
    if ls.len() >= 2 {
        lemma_join_front(ls, "\n"@);
    }
    assert(s =~= first + seq!['\n'] + rest_text);
    lemma_find_char_is(s, '\n', first.len() as int);
    assert(s.take(first.len() as int) =~= first);
    assert(s.skip(first.len() as int + 1) =~= rest_text);
    assert(strip_cr(first) == first);
    if ls.len() >= 2 {
        let rest = ls.drop_first();
        assert forall|k: int| 0 <= k < rest.len() implies no_newline(#[trigger] rest[k]) by {
            assert(rest[k] == ls[k + 1]);
        }
        assert forall|k: int| 0 <= k < rest.len() implies no_trailing_cr(#[trigger] rest[k]) by {
            assert(rest[k] == ls[k + 1]);
        }
        lemma_lines_of_written(rest);
        assert(lines(s) =~= seq![first] + rest);
        assert(seq![first] + rest =~= ls);
    } else {
        assert(lines(rest_text) =~= Seq::<Seq<char>>::empty());
        assert(lines(s) == seq![strip_cr(s.take(first.len() as int))] + lines(rest_text));
        assert(lines(s) =~= seq![first]);
        assert(seq![first] =~= ls);
    }
}

pub proof fn lemma_trim_end_keeps(s: Seq<char>)
    requires
        s.len() > 0,
        !is_whitespace(s[0]),
    ensures
        trim(s).len() > 0,
{
    assert(trim_start(s) == s);
    lemma_trim_end_nonempty(s);
}

pub proof fn lemma_trim_end_nonempty(s: Seq<char>)
    requires
        s.len() > 0,
        !is_whitespace(s[0]),
    ensures
        trim_end(s).len() > 0,
    decreases s.len(),
{
    if s.len() > 1 && is_whitespace(s.last()) {
        assert(s.drop_last()[0] == s[0]);
        lemma_trim_end_nonempty(s.drop_last());
    }
}

pub proof fn lemma_trim_start_skip(s: Seq<char>, i: int)
    requires
        0 <= i < s.len(),
        is_whitespace(s[i]),
    ensures
        trim_start(s.skip(i)) == trim_start(s.skip(i + 1)),
{
    assert(s.skip(i).drop_first() =~= s.skip(i + 1));
}

pub proof fn lemma_trim_end_take(s: Seq<char>, j: int)
    requires
        0 < j <= s.len(),
        is_whitespace(s[j - 1]),
    ensures
        trim_end(s.take(j)) == trim_end(s.take(j - 1)),
{
    assert(s.take(j).drop_last() =~= s.take(j - 1));
}


pub proof fn lemma_trim_start_len(s: Seq<char>)
    ensures
        trim_start(s).len() <= s.len(),
        trim_start(s).len() > 0 ==> !is_whitespace(trim_start(s)[0]),
        exists|k: int| 0 <= k <= s.len() && trim_start(s) == s.skip(k) && forall|j: int|
            0 <= j < k ==> is_whitespace(#[trigger] s[j]),
    decreases s.len(),
{
    if s.len() > 0 && is_whitespace(s[0]) {
        lemma_trim_start_len(s.drop_first());
        let k = choose|k: int|
            0 <= k <= s.drop_first().len() && trim_start(s.drop_first()) == s.drop_first().skip(k)
                && forall|j: int| 0 <= j < k ==> is_whitespace(#[trigger] s.drop_first()[j]);
        assert(s.drop_first().skip(k) =~= s.skip(k + 1));
        assert forall|j: int| 0 <= j < k + 1 implies is_whitespace(#[trigger] s[j]) by {
            if j > 0 {
                assert(s[j] == s.drop_first()[j - 1]);
            }
        }
    } else {
        assert(s.skip(0) =~= s);
    }
}

pub proof fn lemma_find_whitespace(s: Seq<char>)
    ensures
        find_whitespace(s) <= s.len(),
        forall|j: int| 0 <= j < find_whitespace(s) ==> !is_whitespace(#[trigger] s[j]),
        find_whitespace(s) < s.len() ==> is_whitespace(s[find_whitespace(s) as int]),
    decreases s.len(),
{
    if s.len() > 0 && !is_whitespace(s[0]) {
        lemma_find_whitespace(s.drop_first());
        assert forall|j: int| 0 <= j < find_whitespace(s) implies !is_whitespace(#[trigger] s[j]) by {
            if j > 0 {
                assert(s[j] == s.drop_first()[j - 1]);
            }
        }
    }
}

pub proof fn lemma_find_whitespace_is(s: Seq<char>, i: int)
    requires
        0 <= i <= s.len(),
        forall|j: int| 0 <= j < i ==> !is_whitespace(#[trigger] s[j]),
        i < s.len() ==> is_whitespace(s[i]),
    ensures
        find_whitespace(s) == i,
    decreases s.len(),
{
    if s.len() > 0 && i > 0 {
        assert forall|j: int| 0 <= j < i - 1 implies !is_whitespace(#[trigger] s.drop_first()[j]) by {
            assert(s.drop_first()[j] == s[j + 1]);
        }
        lemma_find_whitespace_is(s.drop_first(), i - 1);
    }
}

/// Leading whitespace up to position `i` does not change `trim_start`.
pub proof fn lemma_trim_start_prefix(s: Seq<char>, i: int)
    requires
        0 <= i <= s.len(),
        forall|j: int| 0 <= j < i ==> is_whitespace(#[trigger] s[j]),
    ensures
        trim_start(s) == trim_start(s.skip(i)),
    decreases i,
{
    if i > 0 {
        assert forall|j: int| 0 <= j < i - 1 implies is_whitespace(#[trigger] s.drop_first()[j]) by {
            assert(s.drop_first()[j] == s[j + 1]);
        }
        lemma_trim_start_prefix(s.drop_first(), i - 1);
        assert(s.drop_first().skip(i - 1) =~= s.skip(i));
    } else {
        assert(s.skip(0) =~= s);
    }
}

/// The value of a digit string only grows as digits are appended.
pub proof fn lemma_digits_value_grows(s: Seq<char>, i: int)
    requires
        0 <= i <= s.len(),
    ensures
        digits_value(s) >= digits_value(s.take(i)),
    decreases s.len() - i,
{
    if i < s.len() {
        lemma_digits_value_grows(s, i + 1);
        assert(s.take(i + 1).drop_last() =~= s.take(i));
        assert(digits_value(s.take(i + 1)) == digits_value(s.take(i)) * 10 + ((s.take(i + 1).last() as u32 - 48) as nat));
        assert(digits_value(s.take(i)) * 10 >= digits_value(s.take(i))) by (nonlinear_arith);
    } else {
        assert(s.take(i) =~= s);
    }
}

pub proof fn lemma_lex_total(a: Seq<char>, b: Seq<char>)
    ensures
        lex_le(a, b) || lex_le(b, a),
    decreases a.len(),
{
    if a.len() > 0 && b.len() > 0 && a[0] == b[0] {
        lemma_lex_total(a.drop_first(), b.drop_first());
    }
}

pub proof fn lemma_lex_antisymmetric(a: Seq<char>, b: Seq<char>)
    requires
        lex_le(a, b),
        lex_le(b, a),
    ensures
        a == b,
    decreases a.len(),
{
    if a.len() > 0 && b.len() > 0 {
        lemma_lex_antisymmetric(a.drop_first(), b.drop_first());
        assert(a =~= seq![a[0]] + a.drop_first());
        assert(b =~= seq![b[0]] + b.drop_first());
    } else {
        assert(a =~= b);
    }
}

pub proof fn lemma_lex_transitive(a: Seq<char>, b: Seq<char>, c: Seq<char>)
    requires
        lex_le(a, b),
        lex_le(b, c),
    ensures
        lex_le(a, c),
    decreases a.len(),
{
    if a.len() > 0 && b.len() > 0 && c.len() > 0 && a[0] == b[0] && b[0] == c[0] {
        lemma_lex_transitive(a.drop_first(), b.drop_first(), c.drop_first());
    }
}

// ---------------------------------------------------------------------------
// Executable operations
// ---------------------------------------------------------------------------

/// Appends one character to a string (`String::push`).
#[verifier::external_body]
pub(crate) fn push_char(s: &mut String, c: char)
    ensures
        final(s)@ == old(s)@.push(c),
{
    s.push(c);
}

/// The characters of a string slice, in order.
pub fn chars_of(s: &str) -> (v: Vec<char>)
    ensures
        v@ == s@,
{
    let mut v: Vec<char> = Vec::new();
    for c in it: s.chars()
        invariant
            v@ == it.seq().take(it.index() as int),
    {
        v.push(c);
    }
    v
}

/// Appends `v[from..to]` to `out`.
pub fn push_range(out: &mut String, v: &Vec<char>, from: usize, to: usize)
    requires
        from <= to <= v.len(),
    ensures
        final(out)@ == old(out)@ + v@.subrange(from as int, to as int),
{
    let mut i = from;
    while i < to
        invariant
            from <= i <= to <= v.len(),
            out@ == old(out)@ + v@.subrange(from as int, i as int),
        decreases to - i,
    {
        push_char(out, v[i]);
        assert(v@.subrange(from as int, i + 1) =~= v@.subrange(from as int, i as int).push(v@[i as int]));
        i += 1;
    }
}

/// A string holding `v[from..to]`.
pub fn string_of_range(v: &Vec<char>, from: usize, to: usize) -> (s: String)
    requires
        from <= to <= v.len(),
    ensures
        s@ == v@.subrange(from as int, to as int),
{
    let mut s = String::new();
    push_range(&mut s, v, from, to);
    s
}

/// Appends a string slice.
pub fn push_str(out: &mut String, s: &str)
    ensures
        final(out)@ == old(out)@ + s@,
{
    out.append(s);
}

/// Whether two character sequences are equal.
pub fn chars_equal(a: &Vec<char>, b: &Vec<char>) -> (r: bool)
    ensures
        r == (a@ == b@),
{
    if a.len() != b.len() {
        return false;
    }
    let mut i: usize = 0;
    while i < a.len()
        invariant
            a.len() == b.len(),
            0 <= i <= a.len(),
            forall|j: int| 0 <= j < i ==> a@[j] == b@[j],
        decreases a.len() - i,
    {
        if a[i] != b[i] {
            return false;
        }
        i += 1;
    }
    assert(a@ =~= b@);
    true
}

/// Whether two strings are equal.
pub fn str_equal(a: &str, b: &str) -> (r: bool)
    ensures
        r == (a@ == b@),
{
    chars_equal(&chars_of(a), &chars_of(b))
}

pub fn whitespace(c: char) -> (r: bool)
    ensures
        r == is_whitespace(c),
{
    let u = c as u32;
    (0x9 <= u && u <= 0xd) || u == 0x20 || u == 0x85 || u == 0xa0 || u == 0x1680 || (0x2000 <= u
        && u <= 0x200a) || u == 0x2028 || u == 0x2029 || u == 0x202f || u == 0x205f || u == 0x3000
}

/// Bounds `(a, b)` with `v[a..b] == trim(v)`.
pub fn trim_bounds(v: &Vec<char>) -> (r: (usize, usize))
    ensures
        r.0 <= r.1 <= v.len(),
        v@.subrange(r.0 as int, r.1 as int) == trim(v@),
{
    let n = v.len();
    let mut a: usize = 0;
    assert(v@ =~= v@.skip(0));
    while a < n && whitespace(v[a])
        invariant
            a <= n == v.len(),
            trim_start(v@) == trim_start(v@.skip(a as int)),
        decreases n - a,
    {
        proof {
            lemma_trim_start_skip(v@, a as int);
        }
        a += 1;
    }
    assert(v@ =~= v@.skip(0));
    assert(trim_start(v@) == v@.skip(a as int));
    let ghost t = v@.skip(a as int);
    let mut b: usize = n;
    assert(t =~= t.take(b - a));
    while b > a && whitespace(v[b - 1])
        invariant
            a <= b <= n == v.len(),
            t == v@.skip(a as int),
            trim_end(t) == trim_end(t.take(b - a)),
        decreases b,
    {
        proof {
            assert(t[b - a - 1] == v@[b - 1]);
            lemma_trim_end_take(t, b - a);
        }
        b -= 1;
    }
    assert(t =~= t.take(n - a));
    assert(t.take(b - a) =~= v@.subrange(a as int, b as int));
    (a, b)
}

/// `str::trim`.
pub fn trim_str(s: &str) -> (r: String)
    ensures
        r@ == trim(s@),
{
    let v = chars_of(s);
    let (a, b) = trim_bounds(&v);
    string_of_range(&v, a, b)
}

/// Whether `v` holds `pat` at position `i`.
pub fn occurs_at_exec(v: &Vec<char>, pat: &Vec<char>, i: usize) -> (r: bool)
    ensures
        r == occurs_at(v@, pat@, i as int),
{
    if i > v.len() || pat.len() > v.len() - i {
        return false;
    }
    let mut k: usize = 0;
    while k < pat.len()
        invariant
            i + pat.len() <= v.len(),
            0 <= k <= pat.len(),
            forall|j: int| 0 <= j < k ==> v@[i + j] == pat@[j],
        decreases pat.len() - k,
    {
        if v[i + k] != pat[k] {
            assert(v@.subrange(i as int, i + pat.len())[k as int] != pat@[k as int]);
            return false;
        }
        k += 1;
    }
    assert(v@.subrange(i as int, i + pat.len()) =~= pat@);
    true
}

/// `str::contains`.
pub fn contains_chars(v: &Vec<char>, pat: &Vec<char>) -> (r: bool)
    ensures
        r == contains(v@, pat@),
{
    if pat.len() > v.len() {
        return false;
    }
    let last = v.len() - pat.len();
    let mut i: usize = 0;
    while i < last
        invariant
            pat.len() <= v.len(),
            last == v.len() - pat.len(),
            i <= last,
            forall|j: int| 0 <= j < i ==> !occurs_at(v@, pat@, j),
        decreases last - i,
    {
        if occurs_at_exec(v, pat, i) {
            return true;
        }
        i += 1;
    }
    if occurs_at_exec(v, pat, last) {
        return true;
    }
    assert forall|j: int| !occurs_at(v@, pat@, j) by {
        if 0 <= j && j + pat@.len() <= v@.len() {
            assert(j <= last);
        }
    }
    false
}

/// `str::contains` on string slices.
pub fn contains_str(s: &str, pat: &str) -> (r: bool)
    ensures
        r == contains(s@, pat@),
{
    contains_chars(&chars_of(s), &chars_of(pat))
}

/// `str::starts_with`.
pub fn starts_with_chars(v: &Vec<char>, prefix: &Vec<char>) -> (r: bool)
    ensures
        r == starts_with(v@, prefix@),
{
    occurs_at_exec(v, prefix, 0)
}

/// `str::ends_with`.
pub fn ends_with_chars(v: &Vec<char>, suffix: &Vec<char>) -> (r: bool)
    ensures
        r == ends_with(v@, suffix@),
{
    if suffix.len() > v.len() {
        return false;
    }
    occurs_at_exec(v, suffix, v.len() - suffix.len())
}

/// `str::lines`.
pub fn split_lines(v: &Vec<char>) -> (r: Vec<String>)
    ensures
        views(r@) == lines(v@),
{
    let n = v.len();
    let mut r: Vec<String> = Vec::new();
    let mut start: usize = 0;
    let mut i: usize = 0;
    assert(v@.skip(0) =~= v@);
    while i < n
        invariant
            start <= i <= n == v.len(),
            lines(v@) == views(r@) + lines(v@.skip(start as int)),
            forall|j: int| start <= j < i ==> v@[j] != '\n',
        decreases n - i,
    {
        if v[i] == '\n' {
            let ghost rest = v@.skip(start as int);
            proof {
                lemma_find_char_is(rest, '\n', i - start);
                assert(rest.take(i - start) =~= v@.subrange(start as int, i as int));
                assert(rest.skip(i - start + 1) =~= v@.skip(i + 1));
            }
            let end = if i > start && v[i - 1] == '\r' {
                i - 1
            } else {
                i
            };
            let line = string_of_range(v, start, end);
            proof {
                let whole = v@.subrange(start as int, i as int);
                if i > start && v@[i - 1] == '\r' {
                    assert(whole.drop_last() =~= v@.subrange(start as int, end as int));
                }
                assert(strip_cr(whole) == line@);
            }
            let ghost before = r@;
            r.push(line);
            proof {
                assert(views(r@) =~= views(before).push(line@));
                assert(views(before) + lines(rest) =~= views(r@) + lines(v@.skip(i + 1)));
            }
            start = i + 1;
        }
        i += 1;
    }
    if start < n {
        let ghost rest = v@.skip(start as int);
        proof {
            lemma_find_char_is(rest, '\n', rest.len() as int);
        }
        let line = string_of_range(v, start, n);
        let ghost before = r@;
        r.push(line);
        proof {
            assert(rest =~= v@.subrange(start as int, n as int));
            assert(views(r@) =~= views(before).push(line@));
            assert(views(before) + lines(rest) =~= views(r@));
        }
    } else {
        assert(views(r@) + lines(v@.skip(start as int)) =~= views(r@));
    }
    r
}

/// `parts.join(sep)`.
pub fn join_strings(parts: &Vec<String>, sep: &str) -> (r: String)
    ensures
        r@ == join(views(parts@), sep@),
{
    let mut r = String::new();
    let mut i: usize = 0;
    while i < parts.len()
        invariant
            0 <= i <= parts.len(),
            r@ == join(views(parts@).take(i as int), sep@),
        decreases parts.len() - i,
    {
        proof {
            lemma_join_push(views(parts@).take(i as int), sep@, parts@[i as int]@);
            assert(views(parts@).take(i as int).push(parts@[i as int]@) =~= views(parts@).take(
                i + 1,
            ));
        }
        if i > 0 {
            push_str(&mut r, sep);
        }
        push_str(&mut r, parts[i].as_str());
        i += 1;
    }
    assert(views(parts@).take(parts.len() as int) =~= views(parts@));
    r
}

/// `str::replace` with a non-empty pattern.
pub fn replace_str(s: &str, from: &str, to: &str) -> (r: String)
    requires
        from@.len() > 0,
    ensures
        r@ == replace_all(s@, from@, to@),
{
    let v = chars_of(s);
    let f = chars_of(from);
    let mut r = String::new();
    let mut i: usize = 0;
    assert(v@.skip(0) =~= v@);
    while i < v.len()
        invariant
            0 <= i <= v.len(),
            f@ == from@,
            f@.len() > 0,
            replace_all(v@, f@, to@) == r@ + replace_all(v@.skip(i as int), f@, to@),
        decreases v.len() - i,
    {
        let ghost rest = v@.skip(i as int);
        if occurs_at_exec(&v, &f, i) {
            proof {
                assert(rest.subrange(0, f@.len() as int) =~= v@.subrange(i as int, i + f@.len()));
                assert(rest.skip(f@.len() as int) =~= v@.skip(i + f@.len()));
            }
            let ghost before = r@;
            push_str(&mut r, to);
            i += f.len();
            proof {
                assert(before + (to@ + replace_all(v@.skip(i as int), f@, to@)) =~= r@
                    + replace_all(v@.skip(i as int), f@, to@));
            }
        } else {
            proof {
                if starts_with(rest, f@) {
                    assert(rest.subrange(0, f@.len() as int) =~= v@.subrange(
                        i as int,
                        i + f@.len(),
                    ));
                }
                assert(rest.drop_first() =~= v@.skip(i + 1));
                assert(rest[0] == v@[i as int]);
            }
            let ghost before = r@;
            push_char(&mut r, v[i]);
            proof {
                assert(r@ =~= before + seq![v@[i as int]]);
            }
            i += 1;
        }
    }
    r
}


/// `s.split(c)`.
pub fn split_on(v: &Vec<char>, c: char) -> (r: Vec<String>)
    ensures
        views(r@) == split_char(v@, c),
        r@.len() >= 1,
{
    let n = v.len();
    let mut r: Vec<String> = Vec::new();
    let mut start: usize = 0;
    let mut i: usize = 0;
    assert(v@.skip(0) =~= v@);
    while i < n
        invariant
            start <= i <= n == v.len(),
            split_char(v@, c) == views(r@) + split_char(v@.skip(start as int), c),
            forall|j: int| start <= j < i ==> v@[j] != c,
        decreases n - i,
    {
        if v[i] == c {
            let ghost rest = v@.skip(start as int);
            proof {
                lemma_find_char_is(rest, c, i - start);
                assert(rest.take(i - start) =~= v@.subrange(start as int, i as int));
                assert(rest.skip(i - start + 1) =~= v@.skip(i + 1));
            }
            let piece = string_of_range(v, start, i);
            let ghost before = r@;
            r.push(piece);
            proof {
                assert(views(r@) =~= views(before).push(piece@));
                assert(views(before) + split_char(rest, c) =~= views(r@) + split_char(
                    v@.skip(i + 1),
                    c,
                ));
            }
            start = i + 1;
        }
        i += 1;
    }
    let ghost rest = v@.skip(start as int);
    proof {
        lemma_find_char_is(rest, c, rest.len() as int);
        assert(rest =~= v@.subrange(start as int, n as int));
    }
    let piece = string_of_range(v, start, n);
    let ghost before = r@;
    r.push(piece);
    proof {
        assert(views(r@) =~= views(before).push(piece@));
        assert(views(before) + split_char(rest, c) =~= views(r@));
    }
    r
}

/// `s.replace(from, to)` for single characters.
pub fn replace_char_str(s: &str, from: char, to: char) -> (r: String)
    ensures
        r@ == replace_char(s@, from, to),
{
    let v = chars_of(s);
    let mut r = String::new();
    let mut i: usize = 0;
    while i < v.len()
        invariant
            0 <= i <= v.len(),
            r@ == replace_char(v@.take(i as int), from, to),
        decreases v.len() - i,
    {
        let ghost before = r@;
        push_char(&mut r, if v[i] == from { to } else { v[i] });
        assert(replace_char(v@.take(i + 1), from, to) =~= before.push(
            if v@[i as int] == from { to } else { v@[i as int] },
        ));
        i += 1;
    }
    assert(v@.take(v.len() as int) =~= v@);
    r
}

/// A fresh string equal to `s`.
pub fn to_string(s: &str) -> (r: String)
    ensures
        r@ == s@,
{
    let mut r = String::new();
    push_str(&mut r, s);
    r
}

/// `a + b` as a new string.
pub fn concat2(a: &str, b: &str) -> (r: String)
    ensures
        r@ == a@ + b@,
{
    let mut r = to_string(a);
    push_str(&mut r, b);
    r
}

/// `a + b + c` as a new string.
pub fn concat3(a: &str, b: &str, c: &str) -> (r: String)
    ensures
        r@ == a@ + b@ + c@,
{
    let mut r = concat2(a, b);
    push_str(&mut r, c);
    r
}


/// Appends the decimal notation of `n`.
pub fn push_decimal(out: &mut String, n: u64)
    ensures
        final(out)@ == old(out)@ + decimal(n as nat),
    decreases n,
{
    if n >= 10 {
        push_decimal(out, n / 10);
    }
    let ghost before = out@;
    let d = (n % 10) as u8;
    push_char(out, (d + 48) as char);
    proof {
        if n < 10 {
            assert(decimal(n as nat) == seq![digit_char(n as nat)]);
        }
        assert(out@ =~= old(out)@ + decimal(n as nat));
    }
}

/// The decimal notation of `n` (`n.to_string()`).
pub fn decimal_string(n: u64) -> (r: String)
    ensures
        r@ == decimal(n as nat),
{
    let mut r = String::new();
    push_decimal(&mut r, n);
    assert(r@ =~= decimal(n as nat));
    r
}


/// Calls `str::to_lowercase`; the result is `lowercase` of the input.
#[verifier::external_body]
pub(crate) fn to_lowercase(s: &str) -> (r: String)
    ensures
        r@ == lowercase(s@),
{
    s.to_lowercase()
}

/// `s.parse::<u64>().ok()`.
pub fn parse_u64_str(s: &str) -> (r: Option<u64>)
    ensures
        r == parse_u64(s@),
{
    let v = chars_of(s);
    let start: usize = if v.len() > 0 && v[0] == '+' { 1 } else { 0 };
    let ghost d = unsigned_digits(s@);
    assert(d =~= v@.skip(start as int));
    if start >= v.len() {
        return None;
    }
    let mut value: u64 = 0;
    let mut i: usize = start;
    while i < v.len()
        invariant
            start <= i <= v.len(),
            d == v@.skip(start as int),
            d == unsigned_digits(s@),
            d.len() > 0,
            all_digits(d.take(i - start)),
            digits_value(d.take(i - start)) == value as nat,
        decreases v.len() - i,
    {
        let c = v[i];
        proof {
            assert(d.take(i - start + 1).drop_last() =~= d.take(i - start));
            assert(d[i - start] == c);
        }
        if !('0' <= c && c <= '9') {
            proof {
                assert(!is_ascii_digit(d[i - start]));
                assert(!all_digits(d));
            }
            return None;
        }
        let digit = (c as u32 - 48) as u64;
        if value > (u64::MAX - digit) / 10 {
            proof {
                assert(value * 10 + digit > u64::MAX) by (nonlinear_arith)
                    requires
                        value > (u64::MAX - digit) / 10,
                        digit <= 9,
                ;
                assert(digits_value(d.take(i - start + 1)) == value * 10 + digit);
                if all_digits(d) {
                    lemma_digits_value_grows(d, i - start + 1);
                }
            }
            return None;
        }
        value = value * 10 + digit;
        proof {
            assert forall|j: int| 0 <= j < i - start + 1 implies is_ascii_digit(#[trigger] d.take(i - start + 1)[j]) by {
                if j < i - start {
                    assert(d.take(i - start + 1)[j] == d.take(i - start)[j]);
                }
            }
        }
        i += 1;
    }
    assert(d.take(v.len() - start) =~= d);
    Some(value)
}

/// `str::split_whitespace`.
pub fn split_whitespace_str(s: &str) -> (r: Vec<String>)
    ensures
        views(r@) == whitespace_tokens(s@),
{
    let v = chars_of(s);
    let n = v.len();
    let mut r: Vec<String> = Vec::new();
    let mut i: usize = 0;
    assert(v@.skip(0) =~= v@);
    while i < n
        invariant
            i <= n == v.len(),
            v@ == s@,
            whitespace_tokens(s@) == views(r@) + whitespace_tokens(v@.skip(i as int)),
        decreases n - i,
    {
        let ghost rest = v@.skip(i as int);
        let mut a = i;
        while a < n && whitespace(v[a])
            invariant
                i <= a <= n == v.len(),
                forall|j: int| i <= j < a ==> is_whitespace(#[trigger] v@[j]),
            decreases n - a,
        {
            a += 1;
        }
        proof {
            assert forall|j: int| 0 <= j < a - i implies is_whitespace(#[trigger] rest[j]) by {
                assert(rest[j] == v@[i + j]);
            }
            lemma_trim_start_prefix(rest, a - i);
            assert(rest.skip(a - i) =~= v@.skip(a as int));
        }
        if a == n {
            proof {
                assert(v@.skip(a as int).len() == 0);
                assert(trim_start(rest).len() == 0);
                assert(views(r@) + whitespace_tokens(rest) =~= views(r@) + whitespace_tokens(v@.skip(n as int)));
            }
            i = n;
        } else {
            let mut b = a;
            while b < n && !whitespace(v[b])
                invariant
                    a <= b <= n == v.len(),
                    forall|j: int| a <= j < b ==> !is_whitespace(#[trigger] v@[j]),
                decreases n - b,
            {
                b += 1;
            }
            let ghost t = v@.skip(a as int);
            proof {
                assert(t[0] == v@[a as int]);
                assert(trim_start(rest) == t);
                assert(!is_whitespace(t[0]));
                assert forall|j: int| 0 <= j < b - a implies !is_whitespace(#[trigger] t[j]) by {
                    assert(t[j] == v@[a + j]);
                }
                lemma_find_whitespace_is(t, b - a);
                assert(t.take(b - a) =~= v@.subrange(a as int, b as int));
                assert(t.skip(b - a) =~= v@.skip(b as int));
                if b == n {
                    assert(t =~= v@.subrange(a as int, b as int));
                    assert(v@.skip(b as int) =~= Seq::<char>::empty());
                }
            }
            let tok = string_of_range(&v, a, b);
            let ghost before = views(r@);
            r.push(tok);
            proof {
                assert(views(r@) =~= before.push(tok@));
                if b < n {
                    assert(whitespace_tokens(rest) == seq![tok@] + whitespace_tokens(v@.skip(b as int)));
                } else {
                    assert(whitespace_tokens(rest) == seq![tok@]);
                    assert(whitespace_tokens(v@.skip(b as int)) =~= Seq::<Seq<char>>::empty());
                }
                assert(before + whitespace_tokens(rest) =~= views(r@) + whitespace_tokens(v@.skip(b as int)));
            }
            i = b;
        }
    }
    assert(v@.skip(n as int) =~= Seq::<char>::empty());
    assert(views(r@) + whitespace_tokens(v@.skip(n as int)) =~= views(r@));
    r
}


/// Whether `a` sorts before or equal to `b`.
pub fn lex_le_chars(a: &Vec<char>, b: &Vec<char>) -> (r: bool)
    ensures
        r == lex_le(a@, b@),
{
    let mut i: usize = 0;
    assert(a@.skip(0) =~= a@);
    assert(b@.skip(0) =~= b@);
    while i < a.len() && i < b.len() && a[i] == b[i]
        invariant
            i <= a.len(),
            i <= b.len(),
            lex_le(a@, b@) == lex_le(a@.skip(i as int), b@.skip(i as int)),
        decreases a.len() - i,
    {
        proof {
            assert(a@.skip(i as int).drop_first() =~= a@.skip(i + 1));
            assert(b@.skip(i as int).drop_first() =~= b@.skip(i + 1));
        }
        i += 1;
    }
    if i == a.len() {
        return true;
    }
    if i == b.len() {
        return false;
    }
    assert(a@.skip(i as int)[0] == a@[i as int]);
    assert(b@.skip(i as int)[0] == b@[i as int]);
    a[i] < b[i]
}

} // verus!
