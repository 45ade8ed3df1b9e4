use vstd::prelude::*;
use vstd::string::*;
use vstd::std_specs::iter::IteratorSpec;

verus! {

/// Appends one character to the end of a string (`String::push`): the new
/// contents are the old contents followed by `c`.
#[verifier::external_body]
pub(crate) fn push_char(s: &mut String, c: char)
    ensures
        final(s)@ == old(s)@.push(c),
{
    s.push(c)
}

/// The characters of a string slice, in order.
pub fn chars_of(s: &str) -> (out: Vec<char>)
    ensures
        out@ == s@,
{
    broadcast use next_postcondition, axiom_spec_iter;
    let mut out: Vec<char> = Vec::new();
    let mut it = s.chars();
    loop
        invariant
            it.obeys_prophetic_iter_laws(),
            it.decrease() is Some,
            out@ + it.remaining() == s@,
        ensures
            out@ == s@,
        decreases it.decrease()->0,
    {
        match it.next() {
            Some(c) => {
                assert(out@.push(c) + it.remaining() =~= s@);
                out.push(c);
            },
            None => {
                assert(out@ =~= s@);
                break;
            },
        }
    }
    out
}

/// The string made of the characters `chars[from..to]`.
pub fn text_of(chars: &Vec<char>, from: usize, to: usize) -> (out: String)
    requires
        from <= to <= chars@.len(),
    ensures
        out@ == chars@.subrange(from as int, to as int),
{
    let mut out = String::new();
    let mut i: usize = from;
    while i < to
        invariant
            from <= i <= to <= chars@.len(),
            out@ == chars@.subrange(from as int, i as int),
        decreases to - i,
    {
        push_char(&mut out, chars[i]);
        i += 1;
    }
    out
}

/// Whether `c` is white space in the Unicode sense (the code points with the
/// `White_Space` property).
pub open spec fn is_space(c: char) -> bool {
    let n = c as u32;
    ||| 0x09 <= n <= 0x0D
    ||| n == 0x20
    ||| n == 0x85
    ||| n == 0xA0
    ||| n == 0x1680
    ||| 0x2000 <= n <= 0x200A
    ||| n == 0x2028
    ||| n == 0x2029
    ||| n == 0x202F
    ||| n == 0x205F
    ||| n == 0x3000
}

/// `s` without its leading white space.
pub open spec fn skip_leading_space(s: Seq<char>) -> Seq<char>
    decreases s.len(),
{
    if s.len() > 0 && is_space(s[0]) {
        skip_leading_space(s.drop_first())
    } else {
        s
    }
}

/// `s` without its trailing white space.
pub open spec fn skip_trailing_space(s: Seq<char>) -> Seq<char>
    decreases s.len(),
{
    if s.len() > 0 && is_space(s.last()) {
        skip_trailing_space(s.drop_last())
    } else {
        s
    }
}

/// `s` without leading and trailing white space.
pub open spec fn trimmed(s: Seq<char>) -> Seq<char> {
    skip_trailing_space(skip_leading_space(s))
}

pub fn char_is_space(c: char) -> (b: bool)
    ensures
        b == is_space(c),
{
    let n: u32 = c as u32;
    (0x09 <= n && n <= 0x0D) || n == 0x20 || n == 0x85 || n == 0xA0 || n == 0x1680 || (0x2000 <= n
        && n <= 0x200A) || n == 0x2028 || n == 0x2029 || n == 0x202F || n == 0x205F || n == 0x3000
}

/// The start of `chars[from..to]` once its leading white space is skipped.
pub fn leading_space_end(chars: &Vec<char>, from: usize, to: usize) -> (at: usize)
    requires
        from <= to <= chars@.len(),
    ensures
        from <= at <= to,
        chars@.subrange(at as int, to as int) == skip_leading_space(
            chars@.subrange(from as int, to as int),
        ),
{
    let mut at: usize = from;
    while at < to && char_is_space(chars[at])
        invariant
            from <= at <= to <= chars@.len(),
            skip_leading_space(chars@.subrange(at as int, to as int)) == skip_leading_space(
                chars@.subrange(from as int, to as int),
            ),
        decreases to - at,
    {
        assert(chars@.subrange(at as int, to as int).drop_first() =~= chars@.subrange(
            at + 1,
            to as int,
        ));
        at += 1;
    }
    at
}

/// The end of `chars[from..to]` once its trailing white space is dropped.
pub fn trailing_space_start(chars: &Vec<char>, from: usize, to: usize) -> (at: usize)
    requires
        from <= to <= chars@.len(),
    ensures
        from <= at <= to,
        chars@.subrange(from as int, at as int) == skip_trailing_space(
            chars@.subrange(from as int, to as int),
        ),
{
    let mut at: usize = to;
    while at > from && char_is_space(chars[at - 1])
        invariant
            from <= at <= to <= chars@.len(),
            skip_trailing_space(chars@.subrange(from as int, at as int)) == skip_trailing_space(
                chars@.subrange(from as int, to as int),
            ),
        decreases at - from,
    {
        assert(chars@.subrange(from as int, at as int).drop_last() =~= chars@.subrange(
            from as int,
            at - 1,
        ));
        at -= 1;
    }
    at
}

/// The bounds of `chars[from..to]` without its leading and trailing white
/// space.
pub fn trim_bounds(chars: &Vec<char>, from: usize, to: usize) -> (bounds: (usize, usize))
    requires
        from <= to <= chars@.len(),
    ensures
        from <= bounds.0 <= bounds.1 <= to,
        chars@.subrange(bounds.0 as int, bounds.1 as int) == trimmed(
            chars@.subrange(from as int, to as int),
        ),
{
    let start = leading_space_end(chars, from, to);
    let end = trailing_space_start(chars, start, to);
    (start, end)
}

/// Whether every character of `s` is white space.
pub open spec fn all_space(s: Seq<char>) -> bool {
    forall|i: int| 0 <= i < s.len() ==> is_space(#[trigger] s[i])
}

/// Leading white space in front of a text that does not start with white
/// space is all that skipping removes.
pub proof fn lemma_skip_leading_padding(pad: Seq<char>, rest: Seq<char>)
    requires
        all_space(pad),
        rest.len() == 0 || !is_space(rest[0]),
    ensures
        skip_leading_space(pad + rest) == rest,
    decreases pad.len(),
{
    if pad.len() == 0 {
        assert(pad + rest =~= rest);
    } else {
        assert((pad + rest)[0] == pad[0]);
        assert((pad + rest).drop_first() =~= pad.drop_first() + rest);
        lemma_skip_leading_padding(pad.drop_first(), rest);
    }
}

/// Trailing white space behind a text that does not end in white space is
/// all that dropping removes.
pub proof fn lemma_skip_trailing_padding(rest: Seq<char>, pad: Seq<char>)
    requires
        all_space(pad),
        rest.len() == 0 || !is_space(rest.last()),
    ensures
        skip_trailing_space(rest + pad) == rest,
    decreases pad.len(),
{
    if pad.len() == 0 {
        assert(rest + pad =~= rest);
    } else {
        assert((rest + pad).last() == pad.last());
        assert((rest + pad).drop_last() =~= rest + pad.drop_last());
        lemma_skip_trailing_padding(rest, pad.drop_last());
    }
}

/// Trimming a text that is padded with white space on both sides gives the
/// text back, where the text itself neither starts nor ends with white
/// space.
pub proof fn lemma_trimmed_of_padded(left: Seq<char>, core: Seq<char>, right: Seq<char>)
    requires
        all_space(left),
        all_space(right),
        core.len() > 0,
        !is_space(core[0]),
        !is_space(core.last()),
    ensures
        trimmed(left + core + right) == core,
{
    assert(left + core + right =~= left + (core + right));
    assert((core + right)[0] == core[0]);
    lemma_skip_leading_padding(left, core + right);
    lemma_skip_trailing_padding(core, right);
}

/// Trimming a text that is all white space leaves nothing.
pub proof fn lemma_trimmed_of_blank(s: Seq<char>)
    requires
        all_space(s),
    ensures
        trimmed(s).len() == 0,
{
    lemma_skip_leading_padding(s, Seq::empty());
    assert(s + Seq::<char>::empty() =~= s);
}

/// `c` with an ASCII capital letter made small.
pub open spec fn lower_char(c: char) -> char {
    if 'A' <= c <= 'Z' {
        ((c as u8) + 32) as char
    } else {
        c
    }
}

/// `s` with its ASCII capital letters made small.
pub open spec fn ascii_lower(s: Seq<char>) -> Seq<char> {
    s.map_values(|c: char| lower_char(c))
}

pub fn char_to_lower(c: char) -> (l: char)
    ensures
        l == lower_char(c),
{
    if 'A' <= c && c <= 'Z' {
        ((c as u8) + 32) as char
    } else {
        c
    }
}

/// The text of `s` with its ASCII capital letters made small.
pub fn to_ascii_lower(s: &str) -> (out: String)
    ensures
        out@ == ascii_lower(s@),
{
    let chars = chars_of(s);
    let mut out = String::new();
    let mut i: usize = 0;
    while i < chars.len()
        invariant
            i <= chars@.len(),
            chars@ == s@,
            out@ == ascii_lower(s@).subrange(0, i as int),
        decreases chars@.len() - i,
    {
        push_char(&mut out, char_to_lower(chars[i]));
        assert(out@ =~= ascii_lower(s@).subrange(0, i + 1));
        i += 1;
    }
    assert(out@ =~= ascii_lower(s@));
    out
}

/// Whether two texts hold the same characters.
pub fn same_text(a: &str, b: &str) -> (same: bool)
    ensures
        same == (a@ == b@),
{
    String::from_str(a) == String::from_str(b)
}

/// The text that `String::from_utf8_lossy` makes of bytes: the text that
/// they encode in UTF-8, with each ill-formed part replaced by U+FFFD.
pub uninterp spec fn lossy_text(bytes: Seq<u8>) -> Seq<char>;

/// Calls `String::from_utf8_lossy` and takes the text out of the `Cow`. The
/// contract claims only that the text is a function of the bytes.
#[verifier::external_body]
pub(crate) fn from_utf8_lossy(bytes: &[u8]) -> (text: String)
    ensures
        text@ == lossy_text(bytes@),
{
    String::from_utf8_lossy(bytes).into_owned()
}

/// The text of a run of bytes off the network, ill-formed UTF-8 replaced.
pub fn decode_lossy(bytes: &[u8]) -> (text: String)
    ensures
        text@ == lossy_text(bytes@),
{
    from_utf8_lossy(bytes)
}

/// The position of the first line feed of `s` at or after `from`, or the
/// length of `s` where there is none.
pub open spec fn newline_from(s: Seq<char>, from: int) -> int
    decreases s.len() - from,
{
    if from < 0 || from >= s.len() {
        s.len() as int
    } else if s[from] == '\n' {
        from
    } else {
        newline_from(s, from + 1)
    }
}

/// The first line feed at or after `from` stands at or after `from`, and
/// is a line feed.
pub proof fn lemma_newline_bounds(s: Seq<char>, from: int)
    requires
        0 <= from <= s.len(),
    ensures
        from <= newline_from(s, from) <= s.len(),
        newline_from(s, from) < s.len() ==> s[newline_from(s, from)] == '\n',
    decreases s.len() - from,
{
    if from < s.len() && s[from] != '\n' {
        lemma_newline_bounds(s, from + 1);
    }
}

/// A line feed that is found in a text is found at the same place once
/// more text follows.
pub proof fn lemma_newline_extends(s: Seq<char>, more: Seq<char>, from: int)
    requires
        0 <= from <= s.len(),
        newline_from(s, from) < s.len(),
    ensures
        newline_from(s + more, from) == newline_from(s, from),
    decreases s.len() - from,
{
    if from < s.len() && s[from] != '\n' {
        assert((s + more)[from] == s[from]);
        lemma_newline_extends(s, more, from + 1);
    }
}

/// The first line feed of the end of a text stands where it stands in the
/// whole text.
pub proof fn lemma_newline_shifts(t: Seq<char>, cut: int, from: int)
    requires
        0 <= cut <= t.len(),
        0 <= from <= t.len() - cut,
    ensures
        newline_from(t, cut + from) == cut + newline_from(t.subrange(cut, t.len() as int), from),
    decreases t.len() - cut - from,
{
    let tail = t.subrange(cut, t.len() as int);
    if from < tail.len() {
        assert(tail[from] == t[cut + from]);
        if tail[from] != '\n' {
            lemma_newline_shifts(t, cut, from + 1);
        }
    }
}

/// The position of the first line feed of `chars` at or after `from`, or
/// the length of `chars` where there is none.
pub fn find_newline(chars: &Vec<char>, from: usize) -> (at: usize)
    requires
        from <= chars@.len(),
    ensures
        at == newline_from(chars@, from as int),
        from <= at <= chars@.len(),
{
    let mut at: usize = from;
    while at < chars.len() && chars[at] != '\n'
        invariant
            from <= at <= chars@.len(),
            newline_from(chars@, at as int) == newline_from(chars@, from as int),
        decreases chars@.len() - at,
    {
        at += 1;
    }
    at
}

/// Whether `s` begins with `prefix`.
pub open spec fn starts_with(s: Seq<char>, prefix: Seq<char>) -> bool {
    prefix.len() <= s.len() && s.subrange(0, prefix.len() as int) == prefix
}

/// Whether `chars[from..to]` begins with `prefix`.
pub fn range_starts_with(chars: &Vec<char>, from: usize, to: usize, prefix: &Vec<char>) -> (yes:
    bool)
    requires
        from <= to <= chars@.len(),
    ensures
        yes == starts_with(chars@.subrange(from as int, to as int), prefix@),
{
    if prefix.len() > to - from {
        return false;
    }
    let ghost s = chars@.subrange(from as int, to as int);
    let mut i: usize = 0;
    while i < prefix.len()
        invariant
            i <= prefix@.len() <= to - from,
            from <= to <= chars@.len(),
            s == chars@.subrange(from as int, to as int),
            s.subrange(0, i as int) == prefix@.subrange(0, i as int),
        decreases prefix@.len() - i,
    {
        if chars[from + i] != prefix[i] {
            assert(s.subrange(0, prefix@.len() as int)[i as int] != prefix@[i as int]);
            return false;
        }
        assert(s.subrange(0, i + 1) =~= s.subrange(0, i as int).push(s[i as int]));
        assert(prefix@.subrange(0, i + 1) =~= prefix@.subrange(0, i as int).push(prefix@[i as int]));
        i += 1;
    }
    assert(prefix@.subrange(0, prefix@.len() as int) =~= prefix@);
    true
}

/// Appends the characters `chars[from..to]` to `out`.
pub fn extend_from(out: &mut Vec<char>, chars: &Vec<char>, from: usize, to: usize)
    requires
        from <= to <= chars@.len(),
    ensures
        final(out)@ == old(out)@ + chars@.subrange(from as int, to as int),
{
    let mut i: usize = from;
    while i < to
        invariant
            from <= i <= to <= chars@.len(),
            out@ == old(out)@ + chars@.subrange(from as int, i as int),
        decreases to - i,
    {
        out.push(chars[i]);
        assert(out@ =~= old(out)@ + chars@.subrange(from as int, i + 1));
        i += 1;
    }
}

/// The lower case of a text as `str::to_lowercase` gives it, by the rules
/// of Unicode.
pub uninterp spec fn lowercase_text(s: Seq<char>) -> Seq<char>;

/// Calls `str::to_lowercase`. The contract claims only that the result is a
/// function of the text.
#[verifier::external_body]
pub(crate) fn str_to_lowercase(s: &str) -> (lower: String)
    ensures
        lower@ == lowercase_text(s@),
{
    s.to_lowercase()
}

/// The lower case of a text, by the rules of Unicode.
pub fn to_lowercase(s: &str) -> (lower: String)
    ensures
        lower@ == lowercase_text(s@),
{
    str_to_lowercase(s)
}

/// Whether `needle` stands in `hay` at the position `at`.
pub open spec fn occurs_at(hay: Seq<char>, needle: Seq<char>, at: int) -> bool {
    0 <= at && at + needle.len() <= hay.len() && hay.subrange(at, at + needle.len()) == needle
}

/// The first position at or after `from` at which `needle` stands in `hay`.
pub open spec fn find_from(hay: Seq<char>, needle: Seq<char>, from: int) -> Option<int>
    decreases hay.len() - from + 1,
{
    if from < 0 || from + needle.len() > hay.len() {
        None
    } else if occurs_at(hay, needle, from) {
        Some(from)
    } else {
        find_from(hay, needle, from + 1)
    }
}

/// The first position at which `needle` stands in `hay`.
pub open spec fn find_first(hay: Seq<char>, needle: Seq<char>) -> Option<int> {
    find_from(hay, needle, 0)
}

/// Whether `needle` stands somewhere in `hay`.
pub open spec fn contains_text(hay: Seq<char>, needle: Seq<char>) -> bool {
    find_first(hay, needle) is Some
}

/// Whether `needle` stands in `hay` at the position `at`.
pub fn matches_at(hay: &Vec<char>, needle: &Vec<char>, at: usize) -> (yes: bool)
    requires
        at + needle@.len() <= hay@.len(),
    ensures
        yes == occurs_at(hay@, needle@, at as int),
{
    let ghost window = hay@.subrange(at as int, at + needle@.len());
    let total: usize = hay.len();
    let mut i: usize = 0;
    while i < needle.len()
        invariant
            i <= needle@.len(),
            at + needle@.len() <= hay@.len() == total,
            window == hay@.subrange(at as int, at + needle@.len()),
            window.subrange(0, i as int) == needle@.subrange(0, i as int),
        decreases needle@.len() - i,
    {
        if hay[at + i] != needle[i] {
            assert(window[i as int] != needle@[i as int]);
            return false;
        }
        assert(window.subrange(0, i + 1) =~= window.subrange(0, i as int).push(window[i as int]));
        assert(needle@.subrange(0, i + 1) =~= needle@.subrange(0, i as int).push(
            needle@[i as int],
        ));
        i += 1;
    }
    assert(window.subrange(0, needle@.len() as int) =~= window);
    assert(needle@.subrange(0, needle@.len() as int) =~= needle@);
    true
}

/// The first position at or after `from` at which `needle` stands in `hay`.
pub fn find_text_from(hay: &Vec<char>, needle: &Vec<char>, from: usize) -> (found: Option<usize>)
    ensures
        match found {
            Some(at) => find_from(hay@, needle@, from as int) == Some(at as int) && from <= at
                && at + needle@.len() <= hay@.len(),
            None => find_from(hay@, needle@, from as int) is None,
        },
{
    if needle.len() > hay.len() {
        return None;
    }
    let last: usize = hay.len() - needle.len();
    let mut at: usize = from;
    while at <= last
        invariant
            from <= at,
            last == hay@.len() - needle@.len(),
            find_from(hay@, needle@, from as int) == find_from(hay@, needle@, at as int),
        decreases last + 1 - at,
    {
        if matches_at(hay, needle, at) {
            return Some(at);
        }
        if at == last {
            return None;
        }
        at += 1;
    }
    None
}

/// The first position at which `needle` stands in `hay`.
pub fn find_text(hay: &Vec<char>, needle: &Vec<char>) -> (found: Option<usize>)
    ensures
        match found {
            Some(at) => find_first(hay@, needle@) == Some(at as int) && at + needle@.len()
                <= hay@.len(),
            None => find_first(hay@, needle@) is None,
        },
{
    find_text_from(hay, needle, 0)
}

/// The last position at or before `from` at which `needle` stands in `hay`.
pub open spec fn find_back(hay: Seq<char>, needle: Seq<char>, from: int) -> Option<int>
    decreases from + 1,
{
    if from < 0 {
        None
    } else if occurs_at(hay, needle, from) {
        Some(from)
    } else {
        find_back(hay, needle, from - 1)
    }
}

/// The last position at which `needle` stands in `hay`.
pub open spec fn find_last(hay: Seq<char>, needle: Seq<char>) -> Option<int> {
    find_back(hay, needle, hay.len() - needle.len())
}

/// The last position at which `needle` stands in `hay`.
pub fn find_text_last(hay: &Vec<char>, needle: &Vec<char>) -> (found: Option<usize>)
    ensures
        match found {
            Some(at) => find_last(hay@, needle@) == Some(at as int) && at + needle@.len()
                <= hay@.len(),
            None => find_last(hay@, needle@) is None,
        },
{
    if needle.len() > hay.len() {
        return None;
    }
    let mut at: usize = hay.len() - needle.len();
    loop
        invariant
            at + needle@.len() <= hay@.len(),
            find_last(hay@, needle@) == find_back(hay@, needle@, at as int),
        decreases at,
    {
        if matches_at(hay, needle, at) {
            return Some(at);
        }
        if at == 0 {
            assert(find_back(hay@, needle@, -1) is None);
            return None;
        }
        at -= 1;
    }
}

/// The decimal digit for `d`, which is below ten.
pub open spec fn digit(d: nat) -> char {
    if d == 0 {
        '0'
    } else if d == 1 {
        '1'
    } else if d == 2 {
        '2'
    } else if d == 3 {
        '3'
    } else if d == 4 {
        '4'
    } else if d == 5 {
        '5'
    } else if d == 6 {
        '6'
    } else if d == 7 {
        '7'
    } else if d == 8 {
        '8'
    } else {
        '9'
    }
}

/// `n` written in decimal, without leading zeros.
pub open spec fn decimal(n: nat) -> Seq<char>
    decreases n,
{
    if n < 10 {
        seq![digit(n)]
    } else {
        decimal(n / 10).push(digit(n % 10))
    }
}

fn digit_of(d: u64) -> (c: char)
    requires
        d < 10,
    ensures
        c == digit(d as nat),
{
    if d == 0 {
        '0'
    } else if d == 1 {
        '1'
    } else if d == 2 {
        '2'
    } else if d == 3 {
        '3'
    } else if d == 4 {
        '4'
    } else if d == 5 {
        '5'
    } else if d == 6 {
        '6'
    } else if d == 7 {
        '7'
    } else if d == 8 {
        '8'
    } else {
        '9'
    }
}

/// Appends `n` in decimal to `out`.
pub fn push_decimal(out: &mut String, n: u64)
    ensures
        final(out)@ == old(out)@ + decimal(n as nat),
    decreases n,
{
    if n >= 10 {
        push_decimal(out, n / 10);
    }
    push_char(out, digit_of(n % 10));
    proof {
        if n < 10 {
            assert(old(out)@.push(digit(n as nat)) =~= old(out)@ + decimal(n as nat));
        } else {
            assert((old(out)@ + decimal((n / 10) as nat)).push(digit((n % 10) as nat)) =~= old(
                out,
            )@ + decimal(n as nat));
        }
    }
}

/// Appends the characters of `piece` to `out`.
pub fn push_text(out: &mut String, piece: &str)
    ensures
        final(out)@ == old(out)@ + piece@,
{
    out.append(piece);
}

} // verus!
