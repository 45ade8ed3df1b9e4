use crate::text::{chars_of, text_of, trim_bounds, trimmed};
use vstd::prelude::*;

verus! {

/// The position of the first `=` of `s` at or after `from`, or the length of
/// `s` where there is none.
pub open spec fn equals_from(s: Seq<char>, from: int) -> int
    decreases s.len() - from,
{
    if from < 0 || from >= s.len() {
        s.len() as int
    } else if s[from] == '=' {
        from
    } else {
        equals_from(s, from + 1)
    }
}

/// The variable that one line of a configuration file sets: for a line of
/// the form `KEY=VALUE`, the key and the value, each without the white space
/// around it. `None` for a blank line, for a comment, which starts with `#`,
/// and for a line without `=`.
pub open spec fn assignment_of(line: Seq<char>) -> Option<(Seq<char>, Seq<char>)> {
    let text = trimmed(line);
    let at = equals_from(text, 0);
    if text.len() == 0 || text[0] == '#' || at >= text.len() {
        None
    } else {
        Some((trimmed(text.subrange(0, at)), trimmed(text.subrange(at + 1, text.len() as int))))
    }
}

/// Reads one line of a configuration file.
pub fn parse_config_line(line: &str) -> (found: Option<(String, String)>)
    ensures
        match found {
            Some(pair) => assignment_of(line@) == Some((pair.0@, pair.1@)),
            None => assignment_of(line@) is None,
        },
{
    let chars = chars_of(line);
    assert(chars@.subrange(0, chars@.len() as int) =~= chars@);
    let (start, end) = trim_bounds(&chars, 0, chars.len());
    if start == end || chars[start] == '#' {
        return None;
    }
    let ghost text = chars@.subrange(start as int, end as int);
    let mut at: usize = start;
    while at < end && chars[at] != '='
        invariant
            start <= at <= end <= chars@.len(),
            text == chars@.subrange(start as int, end as int),
            equals_from(text, 0) == equals_from(text, at - start),
        decreases end - at,
    {
        at += 1;
    }
    if at >= end {
        return None;
    }
    let (key_start, key_end) = trim_bounds(&chars, start, at);
    let (value_start, value_end) = trim_bounds(&chars, at + 1, end);
    assert(text.subrange(0, at - start) =~= chars@.subrange(start as int, at as int));
    assert(text.subrange(at - start + 1, text.len() as int) =~= chars@.subrange(
        at + 1,
        end as int,
    ));
    Some((text_of(&chars, key_start, key_end), text_of(&chars, value_start, value_end)))
}

} // verus!
