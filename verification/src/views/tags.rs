use crate::text::{
    char_is_space, chars_of, is_space, lowercase_text, push_text, same_text, text_of, to_lowercase,
};
use crate::views::shared::{utf8_len, utf8_width};
use vstd::prelude::*;
use vstd::string::*;

verus! {

/// Whether `c` is a letter or a digit as `char::is_alphanumeric` says, by
/// the classes of Unicode.
pub uninterp spec fn alphanumeric(c: char) -> bool;

/// Calls `char::is_alphanumeric`. The contract claims only that the answer
/// is a function of the character.
#[verifier::external_body]
fn char_is_alphanumeric(c: char) -> (yes: bool)
    ensures
        yes == alphanumeric(c),
{
    c.is_alphanumeric()
}

/// The upper case of a character as `char::to_uppercase` gives it: one
/// character or more, by the rules of Unicode.
pub uninterp spec fn uppercase_of(c: char) -> Seq<char>;

/// Calls `char::to_uppercase` and gathers the characters. The contract
/// claims only that they are a function of the character.
#[verifier::external_body]
fn char_to_uppercase(c: char) -> (upper: String)
    ensures
        upper@ == uppercase_of(c),
{
    c.to_uppercase().collect()
}

/// The upper case of a character, by the rules of Unicode.
pub fn uppercase_char(c: char) -> (upper: String)
    ensures
        upper@ == uppercase_of(c),
{
    char_to_uppercase(c)
}

/// `s` without the characters at its start that are neither letters nor
/// digits.
pub open spec fn skip_leading_marks(s: Seq<char>) -> Seq<char>
    decreases s.len(),
{
    if s.len() > 0 && !alphanumeric(s[0]) {
        skip_leading_marks(s.drop_first())
    } else {
        s
    }
}

/// `s` without the characters at its end that are neither letters nor
/// digits.
pub open spec fn skip_trailing_marks(s: Seq<char>) -> Seq<char>
    decreases s.len(),
{
    if s.len() > 0 && !alphanumeric(s.last()) {
        skip_trailing_marks(s.drop_last())
    } else {
        s
    }
}

/// A word as it is counted: without the marks around it, in lower case.
pub open spec fn cleaned(word: Seq<char>) -> Seq<char> {
    lowercase_text(skip_trailing_marks(skip_leading_marks(word)))
}

/// Whether `word` is too common to be a tag.
pub open spec fn is_stopword(word: Seq<char>) -> bool {
    ||| word == "the"@
    ||| word == "and"@
    ||| word == "that"@
    ||| word == "with"@
    ||| word == "have"@
    ||| word == "this"@
    ||| word == "from"@
    ||| word == "there"@
    ||| word == "would"@
    ||| word == "could"@
    ||| word == "should"@
    ||| word == "about"@
    ||| word == "into"@
    ||| word == "while"@
    ||| word == "where"@
    ||| word == "which"@
    ||| word == "their"@
    ||| word == "them"@
    ||| word == "they"@
    ||| word == "been"@
    ||| word == "after"@
    ||| word == "before"@
    ||| word == "because"@
    ||| word == "given"@
    ||| word == "using"@
    ||| word == "based"@
    ||| word == "over"@
    ||| word == "under"@
    ||| word == "through"@
    ||| word == "among"@
}

/// Whether a cleaned word counts: it takes four bytes of UTF-8 or more and
/// is no stopword.
pub open spec fn counts(word: Seq<char>) -> bool {
    utf8_len(word) >= 4 && !is_stopword(word)
}

/// The position of the first white space of `s` at or after `from`, or the
/// length of `s` where there is none.
pub open spec fn space_from(s: Seq<char>, from: int) -> int
    decreases s.len() - from,
{
    if from < 0 || from >= s.len() {
        s.len() as int
    } else if is_space(s[from]) {
        from
    } else {
        space_from(s, from + 1)
    }
}

/// The words of `s` from `from` on that count, cleaned, in their order. A
/// word is what stands between two white spaces, where anything does.
pub open spec fn tag_words(s: Seq<char>, from: int) -> Seq<Seq<char>>
    decreases s.len() - from,
{
    let end = space_from(s, from);
    if from < 0 || from > s.len() || end < from {
        Seq::empty()
    } else {
        let word = cleaned(s.subrange(from, end));
        let first = if from < end && counts(word) {
            seq![word]
        } else {
            Seq::empty()
        };
        if end >= s.len() {
            first
        } else {
            first + tag_words(s, end + 1)
        }
    }
}

/// A word and how often it was seen.
pub struct Tally {
    pub word: Seq<char>,
    pub count: nat,
}

/// The position of `word` in `tallies`, or their number where it is not
/// among them.
pub open spec fn place_of(tallies: Seq<Tally>, word: Seq<char>, from: int) -> int
    decreases tallies.len() - from,
{
    if from < 0 || from >= tallies.len() {
        tallies.len() as int
    } else if tallies[from].word == word {
        from
    } else {
        place_of(tallies, word, from + 1)
    }
}

/// The tallies with `word` seen once more.
pub open spec fn seen(tallies: Seq<Tally>, word: Seq<char>) -> Seq<Tally> {
    let at = place_of(tallies, word, 0);
    if 0 <= at < tallies.len() {
        tallies.update(at, Tally { word, count: tallies[at].count + 1 })
    } else {
        tallies.push(Tally { word, count: 1 })
    }
}

/// How often each of `words` occurs, in the order in which the words occur
/// first.
pub open spec fn tally_of(words: Seq<Seq<char>>) -> Seq<Tally>
    decreases words.len(),
{
    if words.len() == 0 {
        Seq::empty()
    } else {
        seen(tally_of(words.drop_last()), words.last())
    }
}

/// Whether `a` stands before `b` in the order of a dictionary, character by
/// character.
pub open spec fn text_before(a: Seq<char>, b: Seq<char>) -> bool
    decreases a.len(),
{
    if b.len() == 0 {
        false
    } else if a.len() == 0 {
        true
    } else if a[0] != b[0] {
        a[0] < b[0]
    } else {
        text_before(a.drop_first(), b.drop_first())
    }
}

/// Whether `a` makes a better tag than `b`: it was seen more often, or as
/// often and stands before it in the dictionary.
pub open spec fn better(a: Tally, b: Tally) -> bool {
    a.count > b.count || (a.count == b.count && text_before(a.word, b.word))
}

/// The position of the best of the first `upto` tallies.
pub open spec fn best_of(tallies: Seq<Tally>, upto: int) -> int
    decreases upto,
{
    if upto <= 1 {
        0
    } else {
        let before = best_of(tallies, upto - 1);
        if better(tallies[upto - 1], tallies[before]) {
            upto - 1
        } else {
            before
        }
    }
}

/// The words of the `count` best tallies, the best first.
pub open spec fn top_words(tallies: Seq<Tally>, count: nat) -> Seq<Seq<char>>
    decreases count,
{
    if count == 0 || tallies.len() == 0 {
        Seq::empty()
    } else {
        let best = best_of(tallies, tallies.len() as int);
        seq![tallies[best].word] + top_words(tallies.remove(best), (count - 1) as nat)
    }
}

/// A word with its first character in upper case.
pub open spec fn capitalized(word: Seq<char>) -> Seq<char> {
    if word.len() == 0 {
        word
    } else {
        uppercase_of(word[0]) + word.drop_first()
    }
}

/// How many tags a text is given.
pub const TAG_COUNT: usize = 4;

/// The tags of a text: its most frequent words, the most frequent first
/// and those of one frequency in the order of the dictionary, each with a
/// capital first letter. Words are counted in lower case, without the marks
/// around them; short words and common words are not counted.
pub open spec fn tags_of(text: Seq<char>) -> Seq<Seq<char>> {
    top_words(tally_of(tag_words(text, 0)), TAG_COUNT as nat).map_values(
        |w: Seq<char>| capitalized(w),
    )
}

/// A word with its first character in upper case.
pub fn capitalize_tag(word: &str) -> (tag: String)
    ensures
        tag@ == capitalized(word@),
{
    let chars = chars_of(word);
    if chars.len() == 0 {
        return String::new();
    }
    let mut tag = uppercase_char(chars[0]);
    let rest = text_of(&chars, 1, chars.len());
    push_text(&mut tag, rest.as_str());
    assert(chars@.subrange(1, chars@.len() as int) =~= word@.drop_first());
    tag
}

fn word_is_stopword(word: &str) -> (yes: bool)
    ensures
        yes == is_stopword(word@),
{
    same_text(word, "the") || same_text(word, "and") || same_text(word, "that") || same_text(
        word,
        "with",
    ) || same_text(word, "have") || same_text(word, "this") || same_text(word, "from")
        || same_text(word, "there") || same_text(word, "would") || same_text(word, "could")
        || same_text(word, "should") || same_text(word, "about") || same_text(word, "into")
        || same_text(word, "while") || same_text(word, "where") || same_text(word, "which")
        || same_text(word, "their") || same_text(word, "them") || same_text(word, "they")
        || same_text(word, "been") || same_text(word, "after") || same_text(word, "before")
        || same_text(word, "because") || same_text(word, "given") || same_text(word, "using")
        || same_text(word, "based") || same_text(word, "over") || same_text(word, "under")
        || same_text(word, "through") || same_text(word, "among")
}

/// A word and how often it was seen.
pub struct WordCount {
    pub word: String,
    pub count: usize,
}

impl WordCount {
    pub open spec fn view(&self) -> Tally {
        Tally { word: self.word@, count: self.count as nat }
    }
}

/// The tallies as mathematical values.
pub open spec fn tally_view(counts: Seq<WordCount>) -> Seq<Tally> {
    counts.map_values(|w: WordCount| w@)
}

/// The start of `chars[from..to]` once the marks in front are skipped.
fn leading_marks_end(chars: &Vec<char>, from: usize, to: usize) -> (at: usize)
    requires
        from <= to <= chars@.len(),
    ensures
        from <= at <= to,
        chars@.subrange(at as int, to as int) == skip_leading_marks(
            chars@.subrange(from as int, to as int),
        ),
{
    let mut at: usize = from;
    while at < to && !char_is_alphanumeric(chars[at])
        invariant
            from <= at <= to <= chars@.len(),
            skip_leading_marks(chars@.subrange(at as int, to as int)) == skip_leading_marks(
                chars@.subrange(from as int, to as int),
            ),
        decreases to - at,
    {
        assert(chars@.subrange(at as int, to as int).drop_first() =~= chars@.subrange(
            at + 1,
            to as int,
        ));
        at += 1;
    }
    at
}

/// The end of `chars[from..to]` once the marks behind are dropped.
fn trailing_marks_start(chars: &Vec<char>, from: usize, to: usize) -> (at: usize)
    requires
        from <= to <= chars@.len(),
    ensures
        from <= at <= to,
        chars@.subrange(from as int, at as int) == skip_trailing_marks(
            chars@.subrange(from as int, to as int),
        ),
{
    let mut at: usize = to;
    while at > from && !char_is_alphanumeric(chars[at - 1])
        invariant
            from <= at <= to <= chars@.len(),
            skip_trailing_marks(chars@.subrange(from as int, at as int)) == skip_trailing_marks(
                chars@.subrange(from as int, to as int),
            ),
        decreases at - from,
    {
        assert(chars@.subrange(from as int, at as int).drop_last() =~= chars@.subrange(
            from as int,
            at - 1,
        ));
        at -= 1;
    }
    at
}

/// The word `chars[from..to]` as it is counted.
fn clean_word(chars: &Vec<char>, from: usize, to: usize) -> (word: String)
    requires
        from <= to <= chars@.len(),
    ensures
        word@ == cleaned(chars@.subrange(from as int, to as int)),
{
    let start = leading_marks_end(chars, from, to);
    let end = trailing_marks_start(chars, start, to);
    let bare = text_of(chars, start, end);
    to_lowercase(bare.as_str())
}

/// Every character takes a byte at least.
pub proof fn lemma_utf8_len_covers(s: Seq<char>)
    ensures
        utf8_len(s) >= s.len(),
    decreases s.len(),
{
    if s.len() > 0 {
        lemma_utf8_len_covers(s.drop_last());
    }
}

fn width_of(c: char) -> (width: usize)
    ensures
        width == utf8_width(c),
        1 <= width <= 4,
{
    let n: u32 = c as u32;
    if n < 0x80 {
        1
    } else if n < 0x800 {
        2
    } else if n < 0x10000 {
        3
    } else {
        4
    }
}

/// Whether a word takes four bytes of UTF-8 or more.
fn is_long_enough(word: &Vec<char>) -> (yes: bool)
    ensures
        yes == (utf8_len(word@) >= 4),
{
    if word.len() >= 4 {
        proof {
            lemma_utf8_len_covers(word@);
        }
        return true;
    }
    let mut bytes: usize = 0;
    let mut i: usize = 0;
    while i < word.len()
        invariant
            i <= word@.len() < 4,
            bytes == utf8_len(word@.subrange(0, i as int)),
            bytes <= 4 * i,
        decreases word@.len() - i,
    {
        assert(word@.subrange(0, i + 1).drop_last() =~= word@.subrange(0, i as int));
        bytes = bytes + width_of(word[i]);
        i += 1;
    }
    assert(word@.subrange(0, word@.len() as int) =~= word@);
    bytes >= 4
}

/// Whether a cleaned word counts.
fn word_counts(word: &str) -> (yes: bool)
    ensures
        yes == counts(word@),
{
    let chars = chars_of(word);
    is_long_enough(&chars) && !word_is_stopword(word)
}

/// Notes that `word` was seen once more.
fn note_word(tallies: &mut Vec<WordCount>, word: String, Ghost(bound): Ghost<nat>)
    requires
        bound < usize::MAX,
        forall|k: int| 0 <= k < old(tallies)@.len() ==> (#[trigger] old(tallies)@[k]).count <= bound,
    ensures
        tally_view(final(tallies)@) == seen(tally_view(old(tallies)@), word@),
        forall|k: int|
            0 <= k < final(tallies)@.len() ==> (#[trigger] final(tallies)@[k]).count <= bound + 1,
{
    let ghost before = tally_view(tallies@);
    let mut at: usize = 0;
    while at < tallies.len()
        invariant
            at <= tallies@.len(),
            tallies@ == old(tallies)@,
            before == tally_view(tallies@),
            bound < usize::MAX,
            forall|k: int| 0 <= k < tallies@.len() ==> (#[trigger] tallies@[k]).count <= bound,
            place_of(before, word@, 0) == place_of(before, word@, at as int),
        decreases tallies@.len() - at,
    {
        if tallies[at].word == word {
            let count = tallies[at].count;
            tallies.set(at, WordCount { word, count: count + 1 });
            assert(tally_view(tallies@) =~= seen(before, word@));
            return ;
        }
        at += 1;
    }
    tallies.push(WordCount { word, count: 1 });
    assert(tally_view(tallies@) =~= seen(before, word@));
}

/// The position of the first white space of `chars` at or after `from`.
fn find_space(chars: &Vec<char>, from: usize) -> (at: usize)
    requires
        from <= chars@.len(),
    ensures
        at == space_from(chars@, from as int),
        from <= at <= chars@.len(),
{
    let mut at: usize = from;
    while at < chars.len() && !char_is_space(chars[at])
        invariant
            from <= at <= chars@.len(),
            space_from(chars@, at as int) == space_from(chars@, from as int),
        decreases chars@.len() - at,
    {
        at += 1;
    }
    at
}

/// How often each word of `text` that counts occurs.
fn count_words(text: &str) -> (tallies: Vec<WordCount>)
    ensures
        tally_view(tallies@) == tally_of(tag_words(text@, 0)),
{
    let chars = chars_of(text);
    let mut tallies: Vec<WordCount> = Vec::new();
    let ghost mut done: Seq<Seq<char>> = Seq::empty();
    let mut from: usize = 0;
    assert(tally_view(tallies@) =~= tally_of(done));
    assert(done + tag_words(text@, 0) =~= tag_words(text@, 0));
    loop
        invariant
            chars@ == text@,
            from <= chars@.len(),
            tag_words(text@, 0) == done + tag_words(text@, from as int),
            tally_view(tallies@) == tally_of(done),
            forall|k: int| 0 <= k < tallies@.len() ==> (#[trigger] tallies@[k]).count <= from,
        decreases chars@.len() - from,
    {
        let end = find_space(&chars, from);
        let word = clean_word(&chars, from, end);
        let ghost first: Seq<Seq<char>> = if from < end && counts(word@) {
            seq![word@]
        } else {
            Seq::empty()
        };
        if from < end && word_counts(word.as_str()) {
            proof {
                assert(done.push(word@).drop_last() =~= done);
            }
            note_word(&mut tallies, word, Ghost(from as nat));
            proof {
                done = done.push(word@);
            }
        }
        let ghost earlier = if first.len() > 0 {
            done.drop_last()
        } else {
            done
        };
        proof {
            assert(earlier + first =~= done);
        }
        if end >= chars.len() {
            proof {
                assert(tag_words(text@, from as int) =~= first);
                assert(tag_words(text@, 0) =~= done);
            }
            return tallies;
        }
        proof {
            assert(tag_words(text@, from as int) =~= first + tag_words(text@, end + 1));
            assert(earlier + (first + tag_words(text@, end + 1)) =~= done + tag_words(
                text@,
                end + 1,
            ));
        }
        from = end + 1;
    }
}

/// Whether `a` stands before `b` in the order of a dictionary.
fn word_before(a: &str, b: &str) -> (yes: bool)
    ensures
        yes == text_before(a@, b@),
{
    let left = chars_of(a);
    let right = chars_of(b);
    let mut i: usize = 0;
    assert(left@.subrange(0, left@.len() as int) =~= left@);
    assert(right@.subrange(0, right@.len() as int) =~= right@);
    loop
        invariant
            left@ == a@,
            right@ == b@,
            i <= left@.len(),
            i <= right@.len(),
            text_before(a@, b@) == text_before(
                left@.subrange(i as int, left@.len() as int),
                right@.subrange(i as int, right@.len() as int),
            ),
        decreases left@.len() - i,
    {
        if i >= right.len() {
            return false;
        }
        if i >= left.len() {
            return true;
        }
        let ghost l = left@.subrange(i as int, left@.len() as int);
        let ghost r = right@.subrange(i as int, right@.len() as int);
        assert(l[0] == left@[i as int] && r[0] == right@[i as int]);
        if left[i] != right[i] {
            return left[i] < right[i];
        }
        assert(l.drop_first() =~= left@.subrange(i + 1, left@.len() as int));
        assert(r.drop_first() =~= right@.subrange(i + 1, right@.len() as int));
        i += 1;
    }
}

/// Whether `a` makes a better tag than `b`.
fn is_better(a: &WordCount, b: &WordCount) -> (yes: bool)
    ensures
        yes == better(a@, b@),
{
    a.count > b.count || (a.count == b.count && word_before(a.word.as_str(), b.word.as_str()))
}

/// The position of the best tally.
fn best_index(tallies: &Vec<WordCount>) -> (best: usize)
    requires
        tallies@.len() > 0,
    ensures
        best < tallies@.len(),
        best == best_of(tally_view(tallies@), tallies@.len() as int),
{
    let mut best: usize = 0;
    let mut upto: usize = 1;
    while upto < tallies.len()
        invariant
            1 <= upto <= tallies@.len(),
            best < upto,
            best == best_of(tally_view(tallies@), upto as int),
        decreases tallies@.len() - upto,
    {
        if is_better(&tallies[upto], &tallies[best]) {
            best = upto;
        }
        upto += 1;
    }
    best
}

/// The texts of tags.
pub open spec fn texts_of(tags: Seq<String>) -> Seq<Seq<char>> {
    tags.map_values(|t: String| t@)
}

/// The tags of a text: up to four of its most frequent words.
pub fn generate_tags(text: &str) -> (tags: Vec<String>)
    ensures
        texts_of(tags@) == tags_of(text@),
{
    let mut tallies = count_words(text);
    let ghost all = tally_view(tallies@);
    let ghost mut picked: Seq<Seq<char>> = Seq::empty();
    let mut tags: Vec<String> = Vec::new();
    let mut taken: usize = 0;
    assert(picked + top_words(all, TAG_COUNT as nat) =~= top_words(all, TAG_COUNT as nat));
    while taken < TAG_COUNT && tallies.len() > 0
        invariant
            taken <= TAG_COUNT,
            all == tally_of(tag_words(text@, 0)),
            top_words(all, TAG_COUNT as nat) == picked + top_words(
                tally_view(tallies@),
                (TAG_COUNT - taken) as nat,
            ),
            tags@.len() == picked.len(),
            forall|k: int| 0 <= k < tags@.len() ==> (#[trigger] tags@[k])@ == capitalized(picked[k]),
        decreases TAG_COUNT - taken,
    {
        let best = best_index(&tallies);
        let ghost before = tally_view(tallies@);
        let chosen = tallies.remove(best);
        assert(tally_view(tallies@) =~= before.remove(best as int));
        assert(chosen@ == before[best as int]);
        let tag = capitalize_tag(chosen.word.as_str());
        let ghost old_tags = tags@;
        tags.push(tag);
        proof {
            assert(picked + (seq![chosen.word@] + top_words(
                tally_view(tallies@),
                (TAG_COUNT - taken - 1) as nat,
            )) =~= picked.push(chosen.word@) + top_words(
                tally_view(tallies@),
                (TAG_COUNT - taken - 1) as nat,
            ));
            picked = picked.push(chosen.word@);
        }
        taken += 1;
    }
    proof {
        assert(picked + Seq::<Seq<char>>::empty() =~= picked);
        assert(texts_of(tags@) =~= picked.map_values(|w: Seq<char>| capitalized(w)));
    }
    tags
}

} // verus!
