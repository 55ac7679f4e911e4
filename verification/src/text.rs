//! Strings as sequences of characters: dictionary order, lines and case.

use vstd::prelude::*;

verus! {

/// `String::push` of the standard library appends the character to the end
/// of the string and changes nothing else.
pub assume_specification[ String::push ](s: &mut String, ch: char)
    ensures
        final(s)@ == old(s)@.push(ch),
;

/// What `str::to_lowercase` of the standard library returns for a string
/// with these characters. It follows the Unicode tables and is not spelled
/// out here.
pub uninterp spec fn lowercase_of(s: Seq<char>) -> Seq<char>;

/// Calls `str::to_lowercase`, whose result depends on the characters of
/// the string alone.
#[verifier::external_body]
pub(crate) fn lowercase(s: &str) -> (lowered: String)
    ensures
        lowered@ == lowercase_of(s@),
{
    s.to_lowercase()
}

/// Whether `char::is_whitespace` of the standard library holds of `c`: the
/// Unicode property White_Space, whose members are not listed here.
pub uninterp spec fn whitespace(c: char) -> bool;

/// Calls `char::is_whitespace`, whose result depends on the character
/// alone.
#[verifier::external_body]
pub(crate) fn is_whitespace(c: char) -> (white: bool)
    ensures
        white == whitespace(c),
{
    c.is_whitespace()
}

/// The character sequences of a sequence of strings.
pub open spec fn names_of(strings: Seq<String>) -> Seq<Seq<char>> {
    strings.map_values(|s: String| s@)
}

/// Whether `a` stands before `b` in dictionary order, where characters are
/// ordered by code point and a proper prefix stands before its extensions.
/// This is the order of `str`.
pub open spec fn lex_less(a: Seq<char>, b: Seq<char>) -> bool
    decreases a.len(),
{
    if b.len() == 0 {
        false
    } else if a.len() == 0 {
        true
    } else if a[0] != b[0] {
        a[0] < b[0]
    } else {
        lex_less(a.drop_first(), b.drop_first())
    }
}

/// The lines of a text: the pieces between its line feeds, so one more
/// than it has line feeds. A text that ends in a line feed has an empty
/// last line.
pub open spec fn lines_of(text: Seq<char>) -> Seq<Seq<char>>
    decreases text.len(),
{
    if text.len() == 0 {
        seq![Seq::empty()]
    } else {
        let before = lines_of(text.drop_last());
        if text.last() == '\n' {
            before.push(Seq::empty())
        } else {
            before.drop_last().push(before.last().push(text.last()))
        }
    }
}

/// The test for white space.
pub open spec fn is_white() -> spec_fn(char) -> bool {
    |c: char| whitespace(c)
}

/// The test for anything but white space.
pub open spec fn is_not_white() -> spec_fn(char) -> bool {
    |c: char| !whitespace(c)
}

/// The test for the character `wanted`.
pub open spec fn is_char(wanted: char) -> spec_fn(char) -> bool {
    |c: char| c == wanted
}

/// The test for anything but the character `unwanted`.
pub open spec fn is_not_char(unwanted: char) -> spec_fn(char) -> bool {
    |c: char| c != unwanted
}

/// The number of characters at the start of `s`, one after the other, of
/// which `test` holds.
pub open spec fn leading(s: Seq<char>, test: spec_fn(char) -> bool) -> nat
    decreases s.len(),
{
    if s.len() > 0 && test(s[0]) {
        1 + leading(s.drop_first(), test)
    } else {
        0
    }
}

/// The number of characters at the end of `s`, one before the other, of
/// which `test` holds.
pub open spec fn trailing(s: Seq<char>, test: spec_fn(char) -> bool) -> nat
    decreases s.len(),
{
    if s.len() > 0 && test(s.last()) {
        1 + trailing(s.drop_last(), test)
    } else {
        0
    }
}

/// `s` without the white space at its start and at its end, as `str::trim`
/// leaves it.
pub open spec fn trimmed(s: Seq<char>) -> Seq<char> {
    let rest = s.skip(leading(s, is_white()) as int);
    rest.take(rest.len() - trailing(rest, is_white()))
}

/// What stands in `s` before the first `stop`, or all of `s` where it
/// holds none: the first piece that `str::split` gives.
pub open spec fn before_first(s: Seq<char>, stop: char) -> Seq<char> {
    s.take(leading(s, is_not_char(stop)) as int)
}

/// `s` without every `unwanted` at its start, as `str::trim_start_matches`
/// leaves it.
pub open spec fn without_leading(s: Seq<char>, unwanted: char) -> Seq<char> {
    s.skip(leading(s, is_char(unwanted)) as int)
}

/// The first run of characters in `s` that are not white space, if there is
/// one: the first piece that `str::split_whitespace` gives.
pub open spec fn first_token(s: Seq<char>) -> Option<Seq<char>> {
    let rest = s.skip(leading(s, is_white()) as int);
    if rest.len() == 0 {
        None
    } else {
        Some(rest.take(leading(rest, is_not_white()) as int))
    }
}

/// The decimal digit for `d`.
pub open spec fn digit_of(d: nat) -> char {
    (48 + d % 10) as char
}

/// `n` in decimal digits, without leading zeros.
pub open spec fn decimal_of(n: nat) -> Seq<char>
    decreases n,
{
    if n < 10 {
        seq![digit_of(n)]
    } else {
        decimal_of(n / 10).push(digit_of(n % 10))
    }
}

/// The strings one after the other with `separator` between each two.
pub open spec fn joined_with(strings: Seq<Seq<char>>, separator: Seq<char>) -> Seq<char>
    decreases strings.len(),
{
    if strings.len() == 0 {
        Seq::empty()
    } else if strings.len() == 1 {
        strings[0]
    } else {
        joined_with(strings.drop_last(), separator) + separator + strings.last()
    }
}

/// `leading` is the index of the first character of which the test fails.
pub proof fn lemma_leading(s: Seq<char>, test: spec_fn(char) -> bool, k: int)
    requires
        0 <= k <= s.len(),
        forall|j: int| 0 <= j < k ==> test(#[trigger] s[j]),
        k == s.len() || !test(s[k]),
    ensures
        leading(s, test) == k,
    decreases k,
{
    if k > 0 {
        assert(test(s[0]));
        let rest = s.drop_first();
        assert forall|j: int| 0 <= j < k - 1 implies test(#[trigger] rest[j]) by {
            assert(rest[j] == s[j + 1]);
        }
        lemma_leading(rest, test, k - 1);
    }
}

/// `trailing` counts back to the last character of which the test fails.
pub proof fn lemma_trailing(s: Seq<char>, test: spec_fn(char) -> bool, k: int)
    requires
        0 <= k <= s.len(),
        forall|j: int| s.len() - k <= j < s.len() ==> test(#[trigger] s[j]),
        k == s.len() || !test(s[s.len() - k - 1]),
    ensures
        trailing(s, test) == k,
    decreases k,
{
    if k > 0 {
        assert(test(s[s.len() - 1]));
        let rest = s.drop_last();
        assert forall|j: int| rest.len() - (k - 1) <= j < rest.len() implies test(
            #[trigger] rest[j],
        ) by {
            assert(rest[j] == s[j]);
        }
        lemma_trailing(rest, test, k - 1);
    }
}

/// The lines of a text hold no line feed, and put together again with a
/// line feed between each two they are the text.
pub proof fn lemma_lines_join(text: Seq<char>)
    ensures
        lines_of(text).len() >= 1,
        forall|i: int| 0 <= i < lines_of(text).len() ==> !(#[trigger] lines_of(text)[i]).contains('\n'),
        joined_with(lines_of(text), seq!['\n']) == text,
    decreases text.len(),
{
    let feed = seq!['\n'];
    let lines = lines_of(text);
    if text.len() == 0 {
        assert(lines[0] =~= text);
    } else {
        let start = text.drop_last();
        let before = lines_of(start);
        lemma_lines_join(start);
        assert(text =~= start.push(text.last()));
        if text.last() == '\n' {
            assert(lines.drop_last() =~= before);
            assert(joined_with(lines, feed) =~= start.push('\n'));
        } else {
            let last = before.last().push(text.last());
            assert(lines.last() == last);
            assert(lines.drop_last() =~= before.drop_last());
            if before.len() == 1 {
                assert(joined_with(lines, feed) =~= start.push(text.last()));
            } else {
                assert(joined_with(lines, feed) =~= joined_with(before, feed).push(text.last()));
            }
            assert forall|i: int| 0 <= i < lines.len() implies !(#[trigger] lines[i]).contains(
                '\n',
            ) by {
                if i < lines.len() - 1 {
                    assert(lines[i] == before[i]);
                } else {
                    if last.contains('\n') {
                        let j = choose|j: int| 0 <= j < last.len() && last[j] == '\n';
                        assert(before.last()[j] == '\n');
                    }
                }
            }
        }
    }
}

/// The characters of `s`.
pub fn chars_of(s: &str) -> (chars: Vec<char>)
    ensures
        chars@ == s@,
{
    let mut chars: Vec<char> = Vec::new();
    for c in it: s.chars()
        invariant
            it.seq() == s@,
            chars@ == s@.take(it.index() as int),
    {
        assert(c == it.seq()[it.index() as int]);
        chars.push(c);
        assert(chars@ =~= s@.take(it.index() + 1));
    }
    assert(s@.take(s@.len() as int) =~= s@);
    chars
}

/// Whether `a` stands before `b` in dictionary order.
pub fn less(a: &str, b: &str) -> (before: bool)
    ensures
        before == lex_less(a@, b@),
{
    let left = chars_of(a);
    let right = chars_of(b);
    let mut i: usize = 0;
    assert(a@.skip(0) =~= a@ && b@.skip(0) =~= b@);
    while i < left.len() && i < right.len()
        invariant
            left@ == a@,
            right@ == b@,
            i <= a@.len(),
            i <= b@.len(),
            lex_less(a@, b@) == lex_less(a@.skip(i as int), b@.skip(i as int)),
        decreases a@.len() - i,
    {
        let ghost rest_a = a@.skip(i as int);
        let ghost rest_b = b@.skip(i as int);
        assert(rest_a[0] == a@[i as int] && rest_b[0] == b@[i as int]);
        if left[i] != right[i] {
            return left[i] < right[i];
        }
        assert(rest_a.drop_first() =~= a@.skip(i + 1));
        assert(rest_b.drop_first() =~= b@.skip(i + 1));
        i += 1;
    }
    i < right.len()
}

/// The string of the characters of `chars` from index `from` up to and
/// without index `to`.
pub fn string_of(chars: &Vec<char>, from: usize, to: usize) -> (s: String)
    requires
        from <= to <= chars@.len(),
    ensures
        s@ == chars@.subrange(from as int, to as int),
{
    let mut s = String::new();
    let mut i: usize = from;
    while i < to
        invariant
            from <= i <= to <= chars@.len(),
            s@ == chars@.subrange(from as int, i as int),
        decreases to - i,
    {
        s.push(chars[i]);
        assert(s@ =~= chars@.subrange(from as int, i + 1));
        i += 1;
    }
    s
}

/// The index behind the white space that starts at `from` and ends before
/// `to` at the latest.
pub fn skip_white(chars: &Vec<char>, from: usize, to: usize) -> (end: usize)
    requires
        from <= to <= chars@.len(),
    ensures
        from <= end <= to,
        end == from + leading(chars@.subrange(from as int, to as int), is_white()),
{
    let ghost s = chars@.subrange(from as int, to as int);
    let mut i: usize = from;
    while i < to && is_whitespace(chars[i])
        invariant
            from <= i <= to <= chars@.len(),
            s == chars@.subrange(from as int, to as int),
            forall|j: int| 0 <= j < i - from ==> is_white()(#[trigger] s[j]),
        decreases to - i,
    {
        i += 1;
    }
    proof {
        lemma_leading(s, is_white(), i - from);
    }
    i
}

/// The index of the first white space at or behind `from` and before `to`,
/// or `to` where there is none.
pub fn skip_not_white(chars: &Vec<char>, from: usize, to: usize) -> (end: usize)
    requires
        from <= to <= chars@.len(),
    ensures
        from <= end <= to,
        end == from + leading(chars@.subrange(from as int, to as int), is_not_white()),
{
    let ghost s = chars@.subrange(from as int, to as int);
    let mut i: usize = from;
    while i < to && !is_whitespace(chars[i])
        invariant
            from <= i <= to <= chars@.len(),
            s == chars@.subrange(from as int, to as int),
            forall|j: int| 0 <= j < i - from ==> is_not_white()(#[trigger] s[j]),
        decreases to - i,
    {
        i += 1;
    }
    proof {
        lemma_leading(s, is_not_white(), i - from);
    }
    i
}

/// The index at which the white space begins that ends at `to` and starts
/// at `from` at the earliest.
pub fn skip_white_back(chars: &Vec<char>, from: usize, to: usize) -> (start: usize)
    requires
        from <= to <= chars@.len(),
    ensures
        from <= start <= to,
        start == to - trailing(chars@.subrange(from as int, to as int), is_white()),
{
    let ghost s = chars@.subrange(from as int, to as int);
    let mut i: usize = to;
    while i > from && is_whitespace(chars[i - 1])
        invariant
            from <= i <= to <= chars@.len(),
            s == chars@.subrange(from as int, to as int),
            forall|j: int| i - from <= j < s.len() ==> is_white()(#[trigger] s[j]),
        decreases i - from,
    {
        i -= 1;
    }
    proof {
        lemma_trailing(s, is_white(), to - i);
    }
    i
}

/// The index behind the run of `wanted` that starts at `from` and ends
/// before `to` at the latest.
pub fn skip_char(chars: &Vec<char>, from: usize, to: usize, wanted: char) -> (end: usize)
    requires
        from <= to <= chars@.len(),
    ensures
        from <= end <= to,
        end == from + leading(chars@.subrange(from as int, to as int), is_char(wanted)),
{
    let ghost s = chars@.subrange(from as int, to as int);
    let mut i: usize = from;
    while i < to && chars[i] == wanted
        invariant
            from <= i <= to <= chars@.len(),
            s == chars@.subrange(from as int, to as int),
            forall|j: int| 0 <= j < i - from ==> is_char(wanted)(#[trigger] s[j]),
        decreases to - i,
    {
        i += 1;
    }
    proof {
        lemma_leading(s, is_char(wanted), i - from);
    }
    i
}

/// The index of the first `stop` at or behind `from` and before `to`, or
/// `to` where there is none.
pub fn find_char(chars: &Vec<char>, from: usize, to: usize, stop: char) -> (end: usize)
    requires
        from <= to <= chars@.len(),
    ensures
        from <= end <= to,
        end == from + leading(chars@.subrange(from as int, to as int), is_not_char(stop)),
{
    let ghost s = chars@.subrange(from as int, to as int);
    let mut i: usize = from;
    while i < to && chars[i] != stop
        invariant
            from <= i <= to <= chars@.len(),
            s == chars@.subrange(from as int, to as int),
            forall|j: int| 0 <= j < i - from ==> is_not_char(stop)(#[trigger] s[j]),
        decreases to - i,
    {
        i += 1;
    }
    proof {
        lemma_leading(s, is_not_char(stop), i - from);
    }
    i
}

/// Appends `n` in decimal digits.
pub fn push_decimal(s: &mut String, n: u32)
    ensures
        final(s)@ == old(s)@ + decimal_of(n as nat),
    decreases n,
{
    if n >= 10 {
        push_decimal(s, n / 10);
    }
    let d: u8 = (n % 10) as u8;
    let ghost before = s@;
    s.push((48u8 + d) as char);
    assert(s@ =~= old(s)@ + decimal_of(n as nat));
}

/// The lines of `text`.
pub fn lines(text: &str) -> (lines: Vec<String>)
    ensures
        names_of(lines@) == lines_of(text@),
{
    let mut lines: Vec<String> = Vec::new();
    let mut current = String::new();
    for c in it: text.chars()
        invariant
            it.seq() == text@,
            names_of(lines@).push(current@) == lines_of(text@.take(it.index() as int)),
    {
        let ghost seen = text@.take(it.index() as int);
        let ghost grown = text@.take(it.index() + 1);
        assert(c == it.seq()[it.index() as int]);
        assert(grown.drop_last() =~= seen && grown.last() == c);
        let ghost before = names_of(lines@);
        let ghost line = current@;
        assert(before.push(line).drop_last() =~= before);
        if c == '\n' {
            lines.push(current);
            current = String::new();
            assert(names_of(lines@) =~= before.push(line));
        } else {
            current.push(c);
        }
    }
    assert(text@.take(text@.len() as int) =~= text@);
    let ghost before = names_of(lines@);
    lines.push(current);
    assert(names_of(lines@) =~= before.push(current@));
    lines
}

} // verus!
