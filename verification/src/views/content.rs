use crate::text::{
    char_is_space, chars_of, contains_text, find_first, find_from, find_last, find_text,
    find_text_from, find_text_last, is_space, lowercase_text, push_text, skip_trailing_space,
    text_of, to_lowercase, trailing_space_start, trim_bounds, trimmed,
};
use crate::bridge::{get_sdk_script, sdk_script};
use crate::types::{ChatMessage, Role, ThemeMode};
use crate::views::tags::{capitalized, uppercase_char, uppercase_of};
use vstd::prelude::*;
use vstd::string::*;

verus! {

/// How many words begin among the first `upto` characters of `s`: a word
/// begins where a character that is no white space stands at the start or
/// behind white space.
pub open spec fn word_starts(s: Seq<char>, upto: int) -> nat
    decreases upto,
{
    if upto <= 0 {
        0
    } else if !is_space(s[upto - 1]) && (upto == 1 || is_space(s[upto - 2])) {
        word_starts(s, upto - 1) + 1
    } else {
        word_starts(s, upto - 1)
    }
}

/// An estimate of the tokens in a text: the number of its words; for a text
/// without words a quarter of the number of its characters, rounded up.
pub open spec fn token_estimate(s: Seq<char>) -> nat {
    if word_starts(s, s.len() as int) > 0 {
        word_starts(s, s.len() as int)
    } else {
        ((s.len() + 3) / 4) as nat
    }
}

/// An estimate of the tokens in a text.
pub fn estimate_token_count(content: &str) -> (count: usize)
    ensures
        count == token_estimate(content@),
{
    let chars = chars_of(content);
    let mut words: usize = 0;
    let mut i: usize = 0;
    while i < chars.len()
        invariant
            i <= chars@.len(),
            chars@ == content@,
            words <= i,
            words == word_starts(content@, i as int),
        decreases chars@.len() - i,
    {
        if !char_is_space(chars[i]) && (i == 0 || char_is_space(chars[i - 1])) {
            words += 1;
        }
        i += 1;
    }
    if words > 0 {
        words
    } else if chars.len() % 4 == 0 {
        chars.len() / 4
    } else {
        chars.len() / 4 + 1
    }
}

/// How the tags of a block are written.
#[derive(Clone, Copy, Debug, PartialEq, Eq, Structural)]
pub enum TagStyle {
    /// The first letter in upper case, the rest in lower case.
    Document,
    /// The first letter in upper case, the rest as it is.
    App,
}

/// A tag as it is written in the style `style`: without the white space
/// around it; `None` where nothing is left.
pub open spec fn styled_tag(raw: Seq<char>, style: TagStyle) -> Option<Seq<char>> {
    let tag = trimmed(raw);
    if tag.len() == 0 {
        None
    } else {
        match style {
            TagStyle::Document => Some(uppercase_of(tag[0]) + lowercase_text(tag.drop_first())),
            TagStyle::App => Some(capitalized(tag)),
        }
    }
}

/// The tag of a document: see [`styled_tag`].
pub fn normalize_tag(raw: &str) -> (tag: Option<String>)
    ensures
        match tag {
            Some(text) => styled_tag(raw@, TagStyle::Document) == Some(text@),
            None => styled_tag(raw@, TagStyle::Document) is None,
        },
{
    let chars = chars_of(raw);
    assert(chars@.subrange(0, chars@.len() as int) =~= chars@);
    style_range(&chars, 0, chars.len(), TagStyle::Document)
}

/// The tag `chars[from..to]` in the style `style`.
pub fn style_range(chars: &Vec<char>, from: usize, to: usize, style: TagStyle) -> (tag: Option<
    String,
>)
    requires
        from <= to <= chars@.len(),
    ensures
        match tag {
            Some(text) => styled_tag(chars@.subrange(from as int, to as int), style) == Some(
                text@,
            ),
            None => styled_tag(chars@.subrange(from as int, to as int), style) is None,
        },
{
    let (start, end) = trim_bounds(chars, from, to);
    if start == end {
        return None;
    }
    let ghost tag = chars@.subrange(start as int, end as int);
    let mut text = uppercase_char(chars[start]);
    let rest = text_of(chars, start + 1, end);
    assert(rest@ =~= tag.drop_first());
    match style {
        TagStyle::Document => {
            let lower = to_lowercase(rest.as_str());
            push_text(&mut text, lower.as_str());
        },
        TagStyle::App => {
            push_text(&mut text, rest.as_str());
        },
    }
    Some(text)
}

/// The position of the first comma of `s` at or after `from`, or the length
/// of `s` where there is none.
pub open spec fn comma_from(s: Seq<char>, from: int) -> int
    decreases s.len() - from,
{
    if from < 0 || from >= s.len() {
        s.len() as int
    } else if s[from] == ',' {
        from
    } else {
        comma_from(s, from + 1)
    }
}

/// The tags that stand in `raw` from `from` on, comma after comma, each in
/// the style `style`; a place between commas that holds white space alone
/// gives no tag.
pub open spec fn tags_in(raw: Seq<char>, from: int, style: TagStyle) -> Seq<Seq<char>>
    decreases raw.len() - from,
{
    let end = comma_from(raw, from);
    if from < 0 || from > raw.len() || end < from {
        Seq::empty()
    } else {
        let first = match styled_tag(raw.subrange(from, end), style) {
            Some(tag) => seq![tag],
            None => Seq::empty(),
        };
        if end >= raw.len() {
            first
        } else {
            first + tags_in(raw, end + 1, style)
        }
    }
}

/// What closes a block of tags.
pub open spec fn block_end() -> Seq<char> {
    "]]"@
}

/// A text with its block of tags taken out.
pub struct Tagged {
    /// What stands in front of the block, without the white space at its
    /// end.
    pub content: Seq<char>,
    /// The tags of the block.
    pub tags: Seq<Seq<char>>,
}

/// The smaller of two positions.
pub open spec fn sooner(a: int, b: int) -> int {
    if a <= b {
        a
    } else {
        b
    }
}

/// A text parted at its block of tags: the block begins at the last place
/// where `marker` stands and ends at the `]]` that follows; its tags stand
/// between the two. `None` for a text without such a block.
pub open spec fn tagged(content: Seq<char>, marker: Seq<char>, style: TagStyle) -> Option<Tagged> {
    match find_last(content, marker) {
        Some(start) => match find_from(content, block_end(), start) {
            Some(end) => Some(
                Tagged {
                    content: skip_trailing_space(content.subrange(0, start)),
                    tags: tags_in(
                        content.subrange(sooner(start + marker.len(), end), end),
                        0,
                        style,
                    ),
                },
            ),
            None => None,
        },
        None => None,
    }
}

/// The texts of tags.
pub open spec fn tag_views(tags: Seq<String>) -> Seq<Seq<char>> {
    tags.map_values(|t: String| t@)
}

/// The tags that stand in `chars[from..to]`, comma after comma.
fn tags_of_range(chars: &Vec<char>, from: usize, to: usize, style: TagStyle) -> (tags: Vec<String>)
    requires
        from <= to <= chars@.len(),
    ensures
        tag_views(tags@) == tags_in(chars@.subrange(from as int, to as int), 0, style),
{
    let ghost raw = chars@.subrange(from as int, to as int);
    let mut tags: Vec<String> = Vec::new();
    let mut at: usize = from;
    assert(tag_views(tags@) + tags_in(raw, 0, style) =~= tags_in(raw, 0, style));
    loop
        invariant
            from <= at <= to <= chars@.len(),
            raw == chars@.subrange(from as int, to as int),
            tags_in(raw, 0, style) == tag_views(tags@) + tags_in(raw, at - from, style),
        decreases to - at,
    {
        let mut end: usize = at;
        while end < to && chars[end] != ','
            invariant
                at <= end <= to <= chars@.len(),
                from <= at,
                raw == chars@.subrange(from as int, to as int),
                comma_from(raw, at - from) == comma_from(raw, end - from),
            decreases to - end,
        {
            end += 1;
        }
        assert(raw.subrange(at - from, end - from) =~= chars@.subrange(at as int, end as int));
        let ghost before = tag_views(tags@);
        let ghost first: Seq<Seq<char>> = match styled_tag(
            raw.subrange(at - from, end - from),
            style,
        ) {
            Some(tag) => seq![tag],
            None => Seq::empty(),
        };
        match style_range(chars, at, end, style) {
            Some(tag) => {
                tags.push(tag);
            },
            None => {},
        }
        assert(tag_views(tags@) =~= before + first);
        if end >= to {
            assert(tags_in(raw, at - from, style) =~= first);
            assert(tags_in(raw, 0, style) =~= tag_views(tags@));
            return tags;
        }
        assert(tags_in(raw, at - from, style) =~= first + tags_in(raw, end - from + 1, style));
        assert(before + (first + tags_in(raw, end - from + 1, style)) =~= (before + first)
            + tags_in(raw, end - from + 1, style));
        at = end + 1;
    }
}

/// Parts a text at its block of tags.
pub fn split_tagged(content: &str, marker: &str, style: TagStyle) -> (parts: Option<
    (String, Vec<String>),
>)
    ensures
        match parts {
            Some(pair) => tagged(content@, marker@, style) == Some(
                Tagged { content: pair.0@, tags: tag_views(pair.1@) },
            ),
            None => tagged(content@, marker@, style) is None,
        },
{
    let chars = chars_of(content);
    let wanted = chars_of(marker);
    let closing = chars_of("]]");
    let start = match find_text_last(&chars, &wanted) {
        Some(start) => start,
        None => {
            return None;
        },
    };
    let end = match find_text_from(&chars, &closing, start) {
        Some(end) => end,
        None => {
            return None;
        },
    };
    let begin: usize = if wanted.len() <= end - start {
        start + wanted.len()
    } else {
        end
    };
    let stop = trailing_space_start(&chars, 0, start);
    let cleaned = text_of(&chars, 0, stop);
    let tags = tags_of_range(&chars, begin, end, style);
    Some((cleaned, tags))
}

/// What begins the block of tags of a document.
pub open spec fn doc_marker() -> Seq<char> {
    "[[doc_tags:"@
}

/// What begins the block of tags of an app.
pub open spec fn app_marker() -> Seq<char> {
    "[[app_tags:"@
}

/// A document parted from its block of tags: the text in front of the
/// block with the tags of the block; the whole text with no tags where it
/// has no block.
pub fn extract_doc_tags(content: &str) -> (parts: (String, Vec<String>))
    ensures
        match tagged(content@, doc_marker(), TagStyle::Document) {
            Some(found) => parts.0@ == found.content && tag_views(parts.1@) == found.tags,
            None => parts.0@ == content@ && parts.1@.len() == 0,
        },
{
    match split_tagged(content, "[[doc_tags:", TagStyle::Document) {
        Some(parts) => parts,
        None => (String::from_str(content), Vec::new()),
    }
}

/// An app parted from its block of tags: the text in front of the block
/// with the tags of the block; the whole text with the tag `App` where it
/// has no block.
pub fn extract_app_tags(content: &str) -> (parts: (String, Vec<String>))
    ensures
        match tagged(content@, app_marker(), TagStyle::App) {
            Some(found) => parts.0@ == found.content && tag_views(parts.1@) == found.tags,
            None => parts.0@ == content@ && tag_views(parts.1@) == seq!["App"@],
        },
{
    match split_tagged(content, "[[app_tags:", TagStyle::App) {
        Some(parts) => parts,
        None => {
            let mut tags: Vec<String> = Vec::new();
            tags.push(String::from_str("App"));
            assert(tag_views(tags@) =~= seq!["App"@]);
            (String::from_str(content), tags)
        },
    }
}

/// Whether the text `text` holds the word `word`.
pub fn mentions(text: &Vec<char>, word: &str) -> (yes: bool)
    ensures
        yes == contains_text(text@, word@),
{
    let wanted = chars_of(word);
    find_text(text, &wanted).is_some()
}

/// The label, where the condition holds.
pub open spec fn label_if(holds: bool, label: Seq<char>) -> Seq<Seq<char>> {
    if holds {
        seq![label]
    } else {
        Seq::empty()
    }
}

/// The kinds of document that the words of a text, in lower case, speak
/// for, in a fixed order.
pub open spec fn kinds_in(text: Seq<char>) -> Seq<Seq<char>> {
    label_if(
        contains_text(text, "meeting"@) || contains_text(text, "standup"@) || contains_text(
            text,
            "notes"@,
        ),
        "Meeting Notes"@,
    ) + label_if(
        contains_text(text, "plan"@) || contains_text(text, "roadmap"@) || contains_text(
            text,
            "timeline"@,
        ),
        "Project Plan"@,
    ) + label_if(contains_text(text, "proposal"@) || contains_text(text, "pitch"@), "Proposal"@)
        + label_if(
        contains_text(text, "requirements"@) || contains_text(text, "spec"@) || contains_text(
            text,
            "specification"@,
        ),
        "Technical Spec"@,
    ) + label_if(contains_text(text, "summary"@) || contains_text(text, "overview"@), "Summary"@)
        + label_if(
        contains_text(text, "launch"@) || contains_text(text, "release"@),
        "Launch Plan"@,
    ) + label_if(contains_text(text, "faq"@) || contains_text(text, "question"@), "FAQ"@)
        + label_if(
        contains_text(text, "checklist"@) || contains_text(text, "steps"@),
        "Checklist"@,
    ) + label_if(contains_text(text, "brief"@), "Product Brief"@)
}

/// The tags of a document that names none: the kinds of document that its
/// words speak for, or `Notes` where they speak for none.
pub open spec fn fallback_tags(content: Seq<char>) -> Seq<Seq<char>> {
    if kinds_in(lowercase_text(content)).len() == 0 {
        seq!["Notes"@]
    } else {
        kinds_in(lowercase_text(content))
    }
}

/// Adds the label to the tags where the condition holds.
fn add_label(tags: &mut Vec<String>, holds: bool, label: &str)
    ensures
        tag_views(final(tags)@) == tag_views(old(tags)@) + label_if(holds, label@),
{
    if holds {
        tags.push(String::from_str(label));
    }
    assert(tag_views(tags@) =~= tag_views(old(tags)@) + label_if(holds, label@));
}

/// The tags of a document that names none.
pub fn fallback_doc_tags(content: &str) -> (tags: Vec<String>)
    ensures
        tag_views(tags@) == fallback_tags(content@),
{
    let text = chars_of(to_lowercase(content).as_str());
    let mut tags: Vec<String> = Vec::new();
    assert(tag_views(tags@) =~= Seq::<Seq<char>>::empty());
    add_label(
        &mut tags,
        mentions(&text, "meeting") || mentions(&text, "standup") || mentions(&text, "notes"),
        "Meeting Notes",
    );
    add_label(
        &mut tags,
        mentions(&text, "plan") || mentions(&text, "roadmap") || mentions(&text, "timeline"),
        "Project Plan",
    );
    add_label(&mut tags, mentions(&text, "proposal") || mentions(&text, "pitch"), "Proposal");
    add_label(
        &mut tags,
        mentions(&text, "requirements") || mentions(&text, "spec") || mentions(
            &text,
            "specification",
        ),
        "Technical Spec",
    );
    add_label(&mut tags, mentions(&text, "summary") || mentions(&text, "overview"), "Summary");
    add_label(&mut tags, mentions(&text, "launch") || mentions(&text, "release"), "Launch Plan");
    add_label(&mut tags, mentions(&text, "faq") || mentions(&text, "question"), "FAQ");
    add_label(&mut tags, mentions(&text, "checklist") || mentions(&text, "steps"), "Checklist");
    add_label(&mut tags, mentions(&text, "brief"), "Product Brief");
    assert(tag_views(tags@) =~= kinds_in(text@));
    if tags.len() == 0 {
        tags.push(String::from_str("Notes"));
        assert(tag_views(tags@) =~= seq!["Notes"@]);
    }
    tags
}

/// What is known of an answer once it is complete.
#[derive(Clone, Debug, PartialEq, Eq)]
pub struct ResponseEnrichment {
    /// The answer without its block of tags.
    pub content: String,
    pub tags: Vec<String>,
    /// How long the answer took, in milliseconds.
    pub duration_ms: u128,
    /// An estimate of the tokens of the answer.
    pub token_count: usize,
}

/// The tags of an answer: those of its block of tags, or those that its
/// words speak for where it has no block or an empty one.
pub open spec fn answer_tags(content: Seq<char>) -> Seq<Seq<char>> {
    match tagged(content, doc_marker(), TagStyle::Document) {
        Some(found) => if found.tags.len() > 0 {
            found.tags
        } else {
            fallback_tags(content)
        },
        None => fallback_tags(content),
    }
}

/// The text of an answer without its block of tags.
pub open spec fn answer_text(content: Seq<char>) -> Seq<char> {
    match tagged(content, doc_marker(), TagStyle::Document) {
        Some(found) => found.content,
        None => content,
    }
}

/// What is known of a complete answer that took `elapsed_ms` milliseconds:
/// nothing where the time is not known.
pub fn enrich_response(elapsed_ms: Option<u128>, content: &str) -> (enriched: Option<
    ResponseEnrichment,
>)
    ensures
        enriched is Some <==> elapsed_ms is Some,
        enriched matches Some(known) ==> {
            &&& known.duration_ms == elapsed_ms->0
            &&& known.token_count == token_estimate(content@)
            &&& known.content@ == answer_text(content@)
            &&& tag_views(known.tags@) == answer_tags(content@)
        },
{
    let duration_ms = match elapsed_ms {
        Some(ms) => ms,
        None => {
            return None;
        },
    };
    let token_count = estimate_token_count(content);
    let (clean, found) = extract_doc_tags(content);
    let tags = if found.len() == 0 {
        assert(tag_views(found@) =~= Seq::<Seq<char>>::empty());
        fallback_doc_tags(content)
    } else {
        found
    };
    Some(ResponseEnrichment { content: clean, tags, duration_ms, token_count })
}

/// A text cut to `max` characters, with `...` behind it where it was cut.
pub open spec fn shortened(s: Seq<char>, max: nat) -> Seq<char> {
    if s.len() <= max {
        s
    } else {
        s.subrange(0, max as int) + "..."@
    }
}

/// A text cut to `max` characters.
pub fn truncate(s: &str, max: usize) -> (cut: String)
    ensures
        cut@ == shortened(s@, max as nat),
{
    let chars = chars_of(s);
    if chars.len() <= max {
        String::from_str(s)
    } else {
        let mut cut = text_of(&chars, 0, max);
        push_text(&mut cut, "...");
        cut
    }
}

/// What opens a fenced block of HTML.
pub open spec fn fence_open() -> Seq<char> {
    "```html"@
}

/// What closes a fenced block.
pub open spec fn fence_close() -> Seq<char> {
    "```"@
}

/// What stands in the first fenced block of HTML of a text, trimmed.
pub open spec fn fenced_html(content: Seq<char>) -> Option<Seq<char>> {
    match find_first(content, fence_open()) {
        Some(start) => match find_from(content, fence_close(), start + fence_open().len()) {
            Some(end) => Some(trimmed(content.subrange(start + fence_open().len(), end))),
            None => None,
        },
        None => None,
    }
}

/// The HTML that an answer holds: what stands in its first fenced block of
/// HTML; for an answer without one that begins with `<`, the answer itself,
/// up to its last block of tags; nothing else.
pub open spec fn html_content(content: Seq<char>) -> Seq<char> {
    match fenced_html(content) {
        Some(html) => html,
        None => {
            let text = trimmed(content);
            if text.len() > 0 && text[0] == '<' {
                match find_last(text, app_marker()) {
                    Some(at) => trimmed(text.subrange(0, at)),
                    None => text,
                }
            } else {
                Seq::empty()
            }
        },
    }
}

/// The HTML that an answer holds.
pub fn extract_html_content(content: &str) -> (html: String)
    ensures
        html@ == html_content(content@),
{
    let chars = chars_of(content);
    let opening = chars_of("```html");
    let closing = chars_of("```");
    if let Some(start) = find_text(&chars, &opening) {
        let total = chars.len();
        assert(start + opening@.len() <= total);
        let after: usize = start + opening.len();
        if let Some(end) = find_text_from(&chars, &closing, after) {
            let (a, b) = trim_bounds(&chars, after, end);
            return text_of(&chars, a, b);
        }
    }
    assert(chars@.subrange(0, chars@.len() as int) =~= chars@);
    let (first, last) = trim_bounds(&chars, 0, chars.len());
    if first < last && chars[first] == '<' {
        let text = chars_of(text_of(&chars, first, last).as_str());
        let marker = chars_of("[[app_tags:");
        match find_text_last(&text, &marker) {
            Some(at) => {
                let (a, b) = trim_bounds(&text, 0, at);
                text_of(&text, a, b)
            },
            None => {
                assert(text@.subrange(0, text@.len() as int) =~= text@);
                text_of(&text, 0, text.len())
            },
        }
    } else {
        String::new()
    }
}

/// A style sheet as an element of a page.
pub open spec fn style_element(css: Seq<char>) -> Seq<char> {
    "<style>"@ + css + "</style>"@
}

/// `s` with `piece` put in at the position `at`, or at its end where it is
/// shorter.
pub open spec fn spliced(s: Seq<char>, at: int, piece: Seq<char>) -> Seq<char> {
    let place = sooner(at, s.len() as int);
    s.subrange(0, place) + piece + s.subrange(place, s.len() as int)
}

/// A page with a style sheet put in: behind its `<head>` where it has one;
/// else in a head of its own behind its `<html ...>` tag; else in front of
/// everything. The tags are found letter case aside, their places counted
/// in the lower case of the page.
pub open spec fn with_theme(html: Seq<char>, css: Seq<char>) -> Seq<char> {
    let lower = lowercase_text(html);
    match find_first(lower, "<head>"@) {
        Some(head) => spliced(html, head + "<head>"@.len(), style_element(css)),
        None => match find_first(lower, "<html"@) {
            Some(tag) => match find_from(html, ">"@, sooner(tag, html.len() as int)) {
                Some(close) => spliced(
                    html,
                    close + 1,
                    "<head>"@ + style_element(css) + "</head>"@,
                ),
                None => style_element(css) + html,
            },
            None => style_element(css) + html,
        },
    }
}

/// The text `chars` with `piece` put in at the position `at`.
fn splice(chars: &Vec<char>, at: usize, piece: &str) -> (out: String)
    ensures
        out@ == spliced(chars@, at as int, piece@),
{
    let place: usize = if at <= chars.len() {
        at
    } else {
        chars.len()
    };
    let mut out = text_of(chars, 0, place);
    push_text(&mut out, piece);
    let rest = text_of(chars, place, chars.len());
    push_text(&mut out, rest.as_str());
    out
}

/// The style sheet as an element of a page.
fn style_element_of(css: &str) -> (element: String)
    ensures
        element@ == style_element(css@),
{
    let mut element = String::from_str("<style>");
    push_text(&mut element, css);
    push_text(&mut element, "</style>");
    element
}

/// A page with a style sheet put in.
pub fn inject_theme_css(html: &str, theme_css: &str) -> (page: String)
    ensures
        page@ == with_theme(html@, theme_css@),
{
    let chars = chars_of(html);
    let lower = chars_of(to_lowercase(html).as_str());
    let style = style_element_of(theme_css);
    let head = chars_of("<head>");
    if let Some(at) = find_text(&lower, &head) {
        let total = lower.len();
        assert(at + head@.len() <= total);
        return splice(&chars, at + head.len(), style.as_str());
    }
    let tag = chars_of("<html");
    if let Some(at) = find_text(&lower, &tag) {
        let from: usize = if at <= chars.len() {
            at
        } else {
            chars.len()
        };
        let closing = chars_of(">");
        if let Some(close) = find_text_from(&chars, &closing, from) {
            let total = chars.len();
            proof {
                reveal_strlit(">");
            }
            assert(close + 1 <= total);
            let mut head_element = String::from_str("<head>");
            push_text(&mut head_element, style.as_str());
            push_text(&mut head_element, "</head>");
            return splice(&chars, close + 1, head_element.as_str());
        }
    }
    let mut page = style;
    push_text(&mut page, html);
    page
}

/// A page with `piece` put in front of its last `</body>`; in front of its
/// last `</html>` where it has no `</body>`; at its end where it has
/// neither. The tags are found letter case aside, their places counted in
/// the lower case of the page.
pub open spec fn with_tail(page: Seq<char>, piece: Seq<char>) -> Seq<char> {
    let lower = lowercase_text(page);
    match find_last(lower, "</body>"@) {
        Some(at) => spliced(page, at, piece),
        None => match find_last(lower, "</html>"@) {
            Some(at) => spliced(page, at, piece),
            None => page + piece,
        },
    }
}

/// A page with `piece` put in at its end, inside its body where it has one.
pub fn inject_before_end(page: &str, piece: &str) -> (out: String)
    ensures
        out@ == with_tail(page@, piece@),
{
    let chars = chars_of(page);
    let lower = chars_of(to_lowercase(page).as_str());
    let body = chars_of("</body>");
    if let Some(at) = find_text_last(&lower, &body) {
        return splice(&chars, at, piece);
    }
    let end = chars_of("</html>");
    if let Some(at) = find_text_last(&lower, &end) {
        return splice(&chars, at, piece);
    }
    let mut out = String::from_str(page);
    push_text(&mut out, piece);
    out
}

/// A page with the style sheet and the script of the app `app_id` put in:
/// the style sheet as [`with_theme`] says, then the script as [`with_tail`]
/// says.
pub fn inject_theme_and_sdk(html: &str, theme_css: &str, app_id: &str) -> (page: String)
    ensures
        page@ == with_tail(with_theme(html@, theme_css@), sdk_script(app_id@)),
{
    let script = get_sdk_script(app_id);
    let themed = inject_theme_css(html, theme_css);
    inject_before_end(themed.as_str(), script.as_str())
}

/// The style sheet that is put into an app under a colour scheme.
pub open spec fn app_css(theme: ThemeMode) -> Seq<char> {
    match theme {
        ThemeMode::Dark => APP_DARK_CSS@,
        ThemeMode::Light => APP_LIGHT_CSS@,
        ThemeMode::Octane => APP_OCTANE_CSS@,
    }
}

/// The style sheet that is put into an app under a colour scheme.
pub fn app_theme_css(theme: ThemeMode) -> (css: &'static str)
    ensures
        css@ == app_css(theme),
{
    match theme {
        ThemeMode::Dark => APP_DARK_CSS,
        ThemeMode::Light => APP_LIGHT_CSS,
        ThemeMode::Octane => APP_OCTANE_CSS,
    }
}

/// The message that tells a backend how to answer in the chat: it is sent
/// in front of the conversation, as a message of the user.
pub fn system_prompt_message() -> (message: ChatMessage)
    ensures
        message.role == Role::User,
        message.content@ == DOC_TAG_SYSTEM_PROMPT@,
        message.created_at is None,
        message.tags@.len() == 0,
{
    ChatMessage::new(Role::User, String::from_str(DOC_TAG_SYSTEM_PROMPT))
}

/// The message that tells a backend how to build an app: it is sent in
/// front of the conversation, as a message of the user.
pub fn app_builder_message() -> (message: ChatMessage)
    ensures
        message.role == Role::User,
        message.content@ == APP_BUILDER_SYSTEM_PROMPT@,
        message.created_at is None,
        message.tags@.len() == 0,
{
    ChatMessage::new(Role::User, String::from_str(APP_BUILDER_SYSTEM_PROMPT))
}

pub const DOC_TAG_SYSTEM_PROMPT: &'static str = r#"
You are Blackbird, an AI writing partner that helps users draft and organize documents.
When you respond, always include a final line in the exact format [[doc_tags: tag1, tag2, ...]].
Choose 1-3 high-level document category tags that describe the type of document the user would file this as (e.g. Proposal, Meeting Notes, Product Brief, Technical Spec, Launch Plan, Research Summary, Checklist, FAQ).
Avoid generic words from the response body; focus on the document intent.
Do not include any additional text on the tag line beyond the brackets and comma-separated tags.
If you cannot infer a type, use [[doc_tags: Notes]].
"#;

pub const APP_BUILDER_SYSTEM_PROMPT: &'static str = r#"
You are Blackbird Workbench. You build interactive HTML/JS/CSS apps.

RULES:
1. Respond ONLY with HTML code. No markdown, no explanations.
2. Output a complete HTML document with embedded <style> and <script>.
3. IMPORTANT: Do NOT include any body styling (background, color, font-family, margin, padding). The parent app injects theme CSS automatically.
4. Use CSS variables: --bg, --bg-secondary, --text, --text-muted, --border, --accent, --surface
5. Include a <title> tag.
6. End with: [[app_tags: Tag1, Tag2]]

Example structure:
<!DOCTYPE html>
<html>
<head>
    <title>My App</title>
    <style>
        .container { /* your styles using var(--text), var(--bg), etc */ }
    </style>
</head>
<body>
    <div class="container">...</div>
    <script>// your code</script>
</body>
</html>
[[app_tags: Utility]]
"#;

pub const APP_DARK_CSS: &'static str = r#"
            :root {
                --bg: #000000;
                --bg-secondary: #050505;
                --text: #ffffff;
                --text-muted: #cfcfcf;
                --border: #ffffff;
                --accent: #ff3509;
                --surface: #111111;
            }
            body {
                background: var(--bg);
                color: var(--text);
                font-family: 'Inter', -apple-system, BlinkMacSystemFont, 'Segoe UI', sans-serif;
                margin: 0;
                padding: 1rem;
                min-height: 100vh;
                box-sizing: border-box;
            }
            * { box-sizing: border-box; }
            button {
                background: transparent;
                border: 1px solid var(--border);
                color: var(--text);
                padding: 0.6rem 1rem;
                border-radius: 8px;
                cursor: pointer;
                font-weight: 600;
            }
            button:hover { background: var(--surface); }
            input, textarea {
                background: var(--bg);
                border: 1px solid var(--border);
                color: var(--text);
                padding: 0.6rem;
                border-radius: 8px;
            }
        "#;

pub const APP_LIGHT_CSS: &'static str = r#"
            :root {
                --bg: #ffffff;
                --bg-secondary: #f5f5f5;
                --text: #000000;
                --text-muted: #4a4a4a;
                --border: #000000;
                --accent: #ff3509;
                --surface: #e6e6e6;
            }
            body {
                background: var(--bg);
                color: var(--text);
                font-family: 'Inter', -apple-system, BlinkMacSystemFont, 'Segoe UI', sans-serif;
                margin: 0;
                padding: 1rem;
                min-height: 100vh;
                box-sizing: border-box;
            }
            * { box-sizing: border-box; }
            button {
                background: transparent;
                border: 1px solid var(--border);
                color: var(--text);
                padding: 0.6rem 1rem;
                border-radius: 8px;
                cursor: pointer;
                font-weight: 600;
            }
            button:hover { background: var(--surface); }
            input, textarea {
                background: var(--bg);
                border: 1px solid var(--border);
                color: var(--text);
                padding: 0.6rem;
                border-radius: 8px;
            }
        "#;

pub const APP_OCTANE_CSS: &'static str = r#"
            :root {
                --bg: #ff3509;
                --bg-secondary: #ffe0d1;
                --text: #000000;
                --text-muted: #2c2c2c;
                --border: #000000;
                --accent: #ffffff;
                --surface: rgba(0, 0, 0, 0.12);
            }
            body {
                background: var(--bg);
                color: var(--text);
                font-family: 'Inter', -apple-system, BlinkMacSystemFont, 'Segoe UI', sans-serif;
                margin: 0;
                padding: 1rem;
                min-height: 100vh;
                box-sizing: border-box;
            }
            * { box-sizing: border-box; }
            button {
                background: transparent;
                border: 1px solid var(--border);
                color: var(--text);
                padding: 0.6rem 1rem;
                border-radius: 8px;
                cursor: pointer;
                font-weight: 600;
            }
            button:hover { background: var(--surface); }
            input, textarea {
                background: var(--bg-secondary);
                border: 1px solid var(--border);
                color: var(--text);
                padding: 0.6rem;
                border-radius: 8px;
            }
        "#;

} // verus!
