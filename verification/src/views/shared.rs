use crate::text::{
    char_to_lower, chars_of, decimal, find_first, find_from, find_newline, find_text,
    find_text_from, lower_char, lowercase_text, newline_from, push_decimal, push_text,
    text_of, to_lowercase, trim_bounds, trimmed,
};
use crate::views::tags::{generate_tags, tags_of, texts_of};
use vstd::prelude::*;
use vstd::seq_lib::{to_multiset_insert, to_multiset_remove};
use vstd::string::*;

verus! {

/// A saved app that can be shown in the workbench.
#[derive(Clone, Debug, PartialEq, Eq)]
pub struct SavedApp {
    pub id: String,
    pub title: String,
    /// The HTML, scripts and styles of the app, as they are.
    pub content: String,
    pub file_path: Option<String>,
    /// Seconds since the Unix epoch.
    pub created_at: u64,
    pub tags: Vec<String>,
}

/// A saved document: kept under its older name.
pub type SavedDoc = SavedApp;

/// The last component of a path as `std::path::Path::file_name` gives it,
/// where it is valid Unicode: `None` for a path that ends in `..` or has no
/// component.
pub uninterp spec fn path_file_name(path: Seq<char>) -> Option<Seq<char>>;

/// Calls `std::path::Path::file_name` on the path and copies the name out.
/// The contract claims only that the name is a function of the path.
#[verifier::external_body]
fn file_name_of(path: &str) -> (name: Option<String>)
    ensures
        name is Some <==> path_file_name(path@) is Some,
        name is Some ==> name->0@ == path_file_name(path@)->0,
{
    std::path::Path::new(path).file_name().and_then(|name| name.to_str()).map(|name| name.to_string())
}

/// The name to show for the file at `path`: its last component, or the path
/// itself where it has none.
pub fn display_file_name(path: &str) -> (name: String)
    ensures
        name@ == match path_file_name(path@) {
            Some(last) => last,
            None => path@,
        },
{
    match file_name_of(path) {
        Some(name) => name,
        None => String::from_str(path),
    }
}

/// The apps that are there when the program starts, for a program that
/// keeps them in memory: none.
pub fn initial_saved_apps() -> (apps: Vec<SavedApp>)
    ensures
        apps@.len() == 0,
{
    Vec::new()
}

/// The documents that are there when the program starts: see
/// [`initial_saved_apps`].
pub fn initial_saved_docs() -> (docs: Vec<SavedDoc>)
    ensures
        docs@.len() == 0,
{
    initial_saved_apps()
}

/// How many bytes the UTF-8 encoding of `c` takes.
pub open spec fn utf8_width(c: char) -> nat {
    let n = c as u32;
    if n < 0x80 {
        1
    } else if n < 0x800 {
        2
    } else if n < 0x10000 {
        3
    } else {
        4
    }
}

/// How many bytes the UTF-8 encoding of `s` takes.
pub open spec fn utf8_len(s: Seq<char>) -> nat
    decreases s.len(),
{
    if s.len() == 0 {
        0
    } else {
        utf8_len(s.drop_last()) + utf8_width(s.last())
    }
}

/// How many characters from the start of `s` fit in [`TITLE_BYTES`] bytes of
/// UTF-8, counted from `at` on with `used` bytes taken by those before.
pub open spec fn fitting(s: Seq<char>, at: int, used: nat) -> int
    decreases s.len() - at,
{
    if at < 0 || at >= s.len() || used + utf8_width(s[at]) > TITLE_BYTES {
        at
    } else {
        fitting(s, at + 1, used + utf8_width(s[at]))
    }
}

/// The most bytes of UTF-8 that a title takes.
pub const TITLE_BYTES: usize = 80;

/// A title cut to the longest beginning that takes no more than
/// [`TITLE_BYTES`] bytes of UTF-8.
pub open spec fn title_cut(title: Seq<char>) -> Seq<char> {
    title.subrange(0, fitting(title, 0, 0))
}

fn char_width(c: char) -> (width: usize)
    ensures
        width == utf8_width(c),
        1 <= width <= 4,
{
    let n: u32 = c as u32;
    if n < 0x80 {
        1
    } else if n < 0x800 {
        2
    } else if n < 0x10000 {
        3
    } else {
        4
    }
}

/// How many of the characters `chars[from..to]` fit a title.
fn title_end(chars: &Vec<char>, from: usize, to: usize) -> (end: usize)
    requires
        from <= to <= chars@.len(),
    ensures
        from <= end <= to,
        end - from == fitting(chars@.subrange(from as int, to as int), 0, 0),
{
    let ghost s = chars@.subrange(from as int, to as int);
    let mut end: usize = from;
    let mut used: usize = 0;
    while end < to && used + char_width(chars[end]) <= TITLE_BYTES
        invariant
            from <= end <= to <= chars@.len(),
            used <= TITLE_BYTES,
            s == chars@.subrange(from as int, to as int),
            fitting(s, 0, 0) == fitting(s, end - from, used as nat),
        decreases to - end,
    {
        assert(s[end - from] == chars@[end as int]);
        used = used + char_width(chars[end]);
        end += 1;
    }
    proof {
        if end < to {
            assert(s[end - from] == chars@[end as int]);
        }
    }
    end
}

/// A title of no more than [`TITLE_BYTES`] bytes: the title itself where it
/// is that short, else its longest beginning that is.
pub fn truncate_title(title: String) -> (cut: String)
    ensures
        cut@ == title_cut(title@),
{
    let chars = chars_of(title.as_str());
    assert(chars@.subrange(0, chars@.len() as int) =~= chars@);
    let end = title_end(&chars, 0, chars.len());
    text_of(&chars, 0, end)
}

/// `s` without the `#` characters at its start.
pub open spec fn skip_hashes(s: Seq<char>) -> Seq<char>
    decreases s.len(),
{
    if s.len() > 0 && s[0] == '#' {
        skip_hashes(s.drop_first())
    } else {
        s
    }
}

/// The first line of `s` at or after `from` that is not blank, trimmed.
pub open spec fn first_text_line(s: Seq<char>, from: int) -> Option<Seq<char>>
    decreases s.len() - from,
{
    let end = newline_from(s, from);
    if from < 0 || from > s.len() || end < from {
        None
    } else if trimmed(s.subrange(from, end)).len() > 0 {
        Some(trimmed(s.subrange(from, end)))
    } else if end >= s.len() {
        None
    } else {
        first_text_line(s, end + 1)
    }
}

/// The title that a text gives itself: its first line that is not blank,
/// without the `#` in front and the white space around; `fallback` where
/// there is no such line or nothing is left of it. Cut as [`title_cut`]
/// says.
pub open spec fn title_of(content: Seq<char>, fallback: Seq<char>) -> Seq<char> {
    match first_text_line(content, 0) {
        Some(line) => if trimmed(skip_hashes(line)).len() > 0 {
            title_cut(trimmed(skip_hashes(line)))
        } else {
            title_cut(fallback)
        },
        None => title_cut(fallback),
    }
}

/// The start of `chars[from..to]` once the `#` in front are skipped.
fn hashes_end(chars: &Vec<char>, from: usize, to: usize) -> (at: usize)
    requires
        from <= to <= chars@.len(),
    ensures
        from <= at <= to,
        chars@.subrange(at as int, to as int) == skip_hashes(
            chars@.subrange(from as int, to as int),
        ),
{
    let mut at: usize = from;
    while at < to && chars[at] == '#'
        invariant
            from <= at <= to <= chars@.len(),
            skip_hashes(chars@.subrange(at as int, to as int)) == skip_hashes(
                chars@.subrange(from as int, to as int),
            ),
        decreases to - at,
    {
        assert(chars@.subrange(at as int, to as int).drop_first() =~= chars@.subrange(
            at + 1,
            to as int,
        ));
        at += 1;
    }
    at
}

/// The title that a text gives itself, or `fallback`.
pub fn extract_title(content: &str, fallback: &str) -> (title: String)
    ensures
        title@ == title_of(content@, fallback@),
{
    let chars = chars_of(content);
    let mut from: usize = 0;
    loop
        invariant
            chars@ == content@,
            from <= chars@.len(),
            first_text_line(chars@, 0) == first_text_line(chars@, from as int),
        decreases chars@.len() - from,
    {
        let end = find_newline(&chars, from);
        let (start, stop) = trim_bounds(&chars, from, end);
        if start < stop {
            let begin = hashes_end(&chars, start, stop);
            let (a, b) = trim_bounds(&chars, begin, stop);
            if a < b {
                let cut = title_end(&chars, a, b);
                assert(chars@.subrange(a as int, b as int).subrange(0, cut - a) =~= chars@.subrange(
                    a as int,
                    cut as int,
                ));
                return text_of(&chars, a, cut);
            }
            return truncate_title(String::from_str(fallback));
        }
        if end >= chars.len() {
            return truncate_title(String::from_str(fallback));
        }
        from = end + 1;
    }
}

/// The tags of an app for which none are given.
pub open spec fn default_tags() -> Seq<Seq<char>> {
    seq!["App"@]
}

/// The texts of tags.
pub open spec fn tag_texts(tags: Seq<String>) -> Seq<Seq<char>> {
    tags.map_values(|t: String| t@)
}

/// The tags of a saved app: those given, where some are given; the default
/// tag else.
pub open spec fn tags_for(tags_override: Option<Seq<String>>) -> Seq<Seq<char>> {
    match tags_override {
        Some(tags) => if tags.len() > 0 {
            tag_texts(tags)
        } else {
            default_tags()
        },
        None => default_tags(),
    }
}

/// The identifier of an app that is kept in memory.
pub open spec fn memory_id(timestamp: u64) -> Seq<char> {
    "mem-"@ + decimal(timestamp as nat)
}

/// A copy of `tags`.
pub fn clone_tags(tags: &Vec<String>) -> (copy: Vec<String>)
    ensures
        tag_texts(copy@) == tag_texts(tags@),
{
    let mut copy: Vec<String> = Vec::new();
    let mut i: usize = 0;
    while i < tags.len()
        invariant
            i <= tags@.len(),
            copy@.len() == i,
            forall|k: int| 0 <= k < i ==> (#[trigger] copy@[k])@ == tags@[k]@,
        decreases tags@.len() - i,
    {
        copy.push(tags[i].clone());
        i += 1;
    }
    assert(tag_texts(copy@) =~= tag_texts(tags@));
    copy
}

/// The identifier of a saved app: the path of its file, or the identifier
/// of an app that is kept in memory.
pub open spec fn app_id_for(file_path: Option<Seq<char>>, timestamp: u64) -> Seq<char> {
    match file_path {
        Some(path) => path,
        None => memory_id(timestamp),
    }
}

/// The text of an optional path.
pub open spec fn path_text(file_path: Option<&str>) -> Option<Seq<char>> {
    match file_path {
        Some(path) => Some(path@),
        None => None,
    }
}

/// The text of the path of a saved app.
pub open spec fn saved_path(file_path: Option<String>) -> Option<Seq<char>> {
    match file_path {
        Some(path) => Some(path@),
        None => None,
    }
}

/// The tags that are given, as texts.
pub open spec fn given_tags(tags_override: Option<&Vec<String>>) -> Option<Seq<String>> {
    match tags_override {
        Some(tags) => Some(tags@),
        None => None,
    }
}

/// The record of an app saved at the time `timestamp`, in the file at
/// `file_path` or in memory: `None` where the content is blank; else the
/// app, with the identifier of [`app_id_for`] and the tags of [`tags_for`].
pub fn saved_app(
    content: &str,
    title: &str,
    tags_override: Option<&Vec<String>>,
    timestamp: u64,
    file_path: Option<&str>,
) -> (saved: Option<SavedApp>)
    ensures
        saved is None <==> trimmed(content@).len() == 0,
        saved matches Some(app) ==> {
            &&& app.id@ == app_id_for(path_text(file_path), timestamp)
            &&& app.title@ == title@
            &&& app.content@ == content@
            &&& saved_path(app.file_path) == path_text(file_path)
            &&& app.created_at == timestamp
            &&& tag_texts(app.tags@) == tags_for(given_tags(tags_override))
        },
{
    let chars = chars_of(content);
    assert(chars@.subrange(0, chars@.len() as int) =~= chars@);
    let (start, end) = trim_bounds(&chars, 0, chars.len());
    if start == end {
        return None;
    }
    let mut given: Option<Vec<String>> = None;
    if let Some(tags) = tags_override {
        if tags.len() > 0 {
            given = Some(clone_tags(tags));
        }
    }
    let tags = match given {
        Some(tags) => tags,
        None => {
            let mut tags: Vec<String> = Vec::new();
            tags.push(String::from_str("App"));
            assert(tag_texts(tags@) =~= default_tags());
            tags
        },
    };
    let (id, path) = match file_path {
        Some(path) => (String::from_str(path), Some(String::from_str(path))),
        None => {
            let mut id = String::from_str("mem-");
            push_decimal(&mut id, timestamp);
            (id, None)
        },
    };
    Some(
        SavedApp {
            id,
            title: String::from_str(title),
            content: String::from_str(content),
            file_path: path,
            created_at: timestamp,
            tags,
        },
    )
}

/// Saves an app at the time `timestamp`, in memory: `None` where the content
/// is blank; else the app, with an identifier made of the time, no file, and
/// the tags of [`tags_for`].
pub fn persist_app(
    content: &str,
    title: &str,
    tags_override: Option<&Vec<String>>,
    timestamp: u64,
) -> (saved: Option<SavedApp>)
    ensures
        saved is None <==> trimmed(content@).len() == 0,
        saved matches Some(app) ==> {
            &&& app.id@ == memory_id(timestamp)
            &&& app.title@ == title@
            &&& app.content@ == content@
            &&& app.file_path is None
            &&& app.created_at == timestamp
            &&& tag_texts(app.tags@) == tags_for(given_tags(tags_override))
        },
{
    saved_app(content, title, tags_override, timestamp, None)
}

/// Saves a document at the time `timestamp`: as [`persist_app`], under the
/// title that the document gives itself, or `Untitled`.
pub fn persist_markdown_doc(content: &str, tags_override: Option<&Vec<String>>, timestamp: u64) -> (saved:
    Option<SavedDoc>)
    ensures
        saved is None <==> trimmed(content@).len() == 0,
        saved matches Some(doc) ==> {
            &&& doc.id@ == memory_id(timestamp)
            &&& doc.title@ == title_of(content@, "Untitled"@)
            &&& doc.content@ == content@
            &&& doc.file_path is None
            &&& doc.created_at == timestamp
            &&& tag_texts(doc.tags@) == tags_for(given_tags(tags_override))
        },
{
    let title = extract_title(content, "Untitled");
    persist_app(content, title.as_str(), tags_override, timestamp)
}

/// The smaller of two positions.
pub open spec fn earlier(a: int, b: int) -> int {
    if a <= b {
        a
    } else {
        b
    }
}

/// The title of an HTML page: what stands between the first `<title>` and
/// the `</title>` that follows it, letter case of the tags aside, without
/// the white space around it. The places of the tags are counted in the
/// lower case of `content`. `None` where a tag is missing or nothing stands
/// between them.
pub open spec fn html_title(content: Seq<char>) -> Option<Seq<char>> {
    let lower = lowercase_text(content);
    match find_first(lower, "<title>"@) {
        Some(open) => match find_from(lower, "</title>"@, open + "<title>"@.len()) {
            Some(close) => {
                let end = earlier(close, content.len() as int);
                let start = earlier(open + "<title>"@.len(), end);
                if trimmed(content.subrange(start, end)).len() > 0 {
                    Some(trimmed(content.subrange(start, end)))
                } else {
                    None
                }
            },
            None => None,
        },
        None => None,
    }
}

/// The title of an HTML page, where it has one.
pub fn extract_html_title(content: &str) -> (title: Option<String>)
    ensures
        match title {
            Some(text) => html_title(content@) == Some(text@),
            None => html_title(content@) is None,
        },
{
    let chars = chars_of(content);
    let lower = chars_of(to_lowercase(content).as_str());
    let open_tag = chars_of("<title>");
    let close_tag = chars_of("</title>");
    let open = match find_text(&lower, &open_tag) {
        Some(open) => open,
        None => {
            return None;
        },
    };
    let total = lower.len();
    assert(open + open_tag@.len() <= total);
    let after: usize = open + open_tag.len();
    let close = match find_text_from(&lower, &close_tag, after) {
        Some(close) => close,
        None => {
            return None;
        },
    };
    let end: usize = if close <= chars.len() {
        close
    } else {
        chars.len()
    };
    let start: usize = if after <= end {
        after
    } else {
        end
    };
    let (a, b) = trim_bounds(&chars, start, end);
    if a < b {
        Some(text_of(&chars, a, b))
    } else {
        None
    }
}

/// Whether `c` is an ASCII letter or digit.
pub open spec fn is_ascii_alnum(c: char) -> bool {
    ('a' <= c <= 'z') || ('A' <= c <= 'Z') || ('0' <= c <= '9')
}

/// Whether `c` is ASCII white space: space, tab, line feed, form feed or
/// carriage return.
pub open spec fn is_ascii_space(c: char) -> bool {
    c == ' ' || c == '\t' || c == '\n' || c == '\u{c}' || c == '\r'
}

/// The most characters that a slug takes.
pub const SLUG_CHARS: usize = 40;

/// A slug in the making: what it holds, and whether it ends in a dash that
/// stands for white space or a dash of the input.
pub struct SlugState {
    pub slug: Seq<char>,
    pub last_dash: bool,
}

/// The slug after one more character of the input. A letter or digit is
/// taken over, small; white space and dashes give one dash, but not at the
/// start and not behind another; anything else is dropped.
pub open spec fn slug_step(state: SlugState, c: char) -> SlugState {
    let lower = lower_char(c);
    if is_ascii_alnum(lower) {
        SlugState { slug: state.slug.push(lower), last_dash: false }
    } else if (is_ascii_space(lower) || lower == '-') && !state.last_dash && state.slug.len() > 0 {
        SlugState { slug: state.slug.push('-'), last_dash: true }
    } else {
        state
    }
}

/// The slug after the characters of `input` from `at` on. It takes no more
/// characters once it holds [`SLUG_CHARS`].
pub open spec fn slug_from(input: Seq<char>, at: int, state: SlugState) -> Seq<char>
    decreases input.len() - at,
{
    if at < 0 || at >= input.len() {
        state.slug
    } else if slug_step(state, input[at]).slug.len() >= SLUG_CHARS {
        slug_step(state, input[at]).slug
    } else {
        slug_from(input, at + 1, slug_step(state, input[at]))
    }
}

/// `s` without the dashes at its start.
pub open spec fn skip_leading_dashes(s: Seq<char>) -> Seq<char>
    decreases s.len(),
{
    if s.len() > 0 && s[0] == '-' {
        skip_leading_dashes(s.drop_first())
    } else {
        s
    }
}

/// `s` without the dashes at its end.
pub open spec fn skip_trailing_dashes(s: Seq<char>) -> Seq<char>
    decreases s.len(),
{
    if s.len() > 0 && s.last() == '-' {
        skip_trailing_dashes(s.drop_last())
    } else {
        s
    }
}

/// The slug of a title, for use in a file name: its letters and digits,
/// small, with single dashes where white space and dashes stood between
/// them, and no dash at either end.
pub open spec fn slug_of(input: Seq<char>) -> Seq<char> {
    skip_trailing_dashes(
        skip_leading_dashes(slug_from(input, 0, SlugState { slug: Seq::empty(), last_dash: false })),
    )
}

fn char_is_ascii_alnum(c: char) -> (yes: bool)
    ensures
        yes == is_ascii_alnum(c),
{
    ('a' <= c && c <= 'z') || ('A' <= c && c <= 'Z') || ('0' <= c && c <= '9')
}

fn char_is_ascii_space(c: char) -> (yes: bool)
    ensures
        yes == is_ascii_space(c),
{
    c == ' ' || c == '\t' || c == '\n' || c == '\u{c}' || c == '\r'
}

/// The bounds of `chars` without the dashes at its start and its end.
fn dash_bounds(chars: &Vec<char>) -> (bounds: (usize, usize))
    ensures
        bounds.0 <= bounds.1 <= chars@.len(),
        chars@.subrange(bounds.0 as int, bounds.1 as int) == skip_trailing_dashes(
            skip_leading_dashes(chars@),
        ),
{
    let mut start: usize = 0;
    assert(chars@.subrange(0, chars@.len() as int) =~= chars@);
    while start < chars.len() && chars[start] == '-'
        invariant
            start <= chars@.len(),
            skip_leading_dashes(chars@.subrange(start as int, chars@.len() as int))
                == skip_leading_dashes(chars@),
        decreases chars@.len() - start,
    {
        assert(chars@.subrange(start as int, chars@.len() as int).drop_first() =~= chars@.subrange(
            start + 1,
            chars@.len() as int,
        ));
        start += 1;
    }
    let mut end: usize = chars.len();
    while end > start && chars[end - 1] == '-'
        invariant
            start <= end <= chars@.len(),
            skip_trailing_dashes(chars@.subrange(start as int, end as int)) == skip_trailing_dashes(
                chars@.subrange(start as int, chars@.len() as int),
            ),
        decreases end - start,
    {
        assert(chars@.subrange(start as int, end as int).drop_last() =~= chars@.subrange(
            start as int,
            end - 1,
        ));
        end -= 1;
    }
    (start, end)
}

/// The slug of a title, for use in a file name.
pub fn slugify_for_filename(input: &str) -> (slug: String)
    ensures
        slug@ == slug_of(input@),
{
    let chars = chars_of(input);
    let mut slug: Vec<char> = Vec::new();
    let mut last_dash = false;
    let mut i: usize = 0;
    while i < chars.len()
        invariant
            i <= chars@.len(),
            chars@ == input@,
            slug@.len() <= i,
            slug_from(input@, 0, SlugState { slug: Seq::empty(), last_dash: false }) == slug_from(
                input@,
                i as int,
                SlugState { slug: slug@, last_dash },
            ),
        decreases chars@.len() - i,
    {
        let lower = char_to_lower(chars[i]);
        if char_is_ascii_alnum(lower) {
            slug.push(lower);
            last_dash = false;
        } else if (char_is_ascii_space(lower) || lower == '-') && !last_dash && slug.len() > 0 {
            slug.push('-');
            last_dash = true;
        }
        if slug.len() >= SLUG_CHARS {
            let (a, b) = dash_bounds(&slug);
            return text_of(&slug, a, b);
        }
        i += 1;
    }
    let (a, b) = dash_bounds(&slug);
    text_of(&slug, a, b)
}

/// The name of the file for an app saved at the time `timestamp`: the slug
/// of its title, or `app` where the slug is empty, then the time.
pub open spec fn app_file_name(title: Seq<char>, timestamp: u64) -> Seq<char> {
    (if slug_of(title).len() == 0 {
        "app"@
    } else {
        slug_of(title)
    }) + "-"@ + decimal(timestamp as nat) + ".html"@
}

/// The name of the file under which an app is saved.
pub fn file_name_for(title: &str, timestamp: u64) -> (name: String)
    ensures
        name@ == app_file_name(title@, timestamp),
{
    let slug = slugify_for_filename(title);
    let mut name = if slug.as_str().is_empty() {
        String::from_str("app")
    } else {
        slug
    };
    push_text(&mut name, "-");
    push_decimal(&mut name, timestamp);
    push_text(&mut name, ".html");
    name
}

/// Whether the apps stand with the newest first.
pub open spec fn newest_first(apps: Seq<SavedApp>) -> bool {
    forall|i: int, j: int|
        0 <= i < j < apps.len() ==> (#[trigger] apps[i]).created_at >= (#[trigger] apps[j]).created_at
}

/// The apps in the order of their times, the newest first.
pub fn sort_newest_first(apps: Vec<SavedApp>) -> (sorted: Vec<SavedApp>)
    ensures
        newest_first(sorted@),
        sorted@.to_multiset() == apps@.to_multiset(),
{
    let mut rest = apps;
    let mut sorted: Vec<SavedApp> = Vec::new();
    assert(sorted@.to_multiset().add(rest@.to_multiset()) =~= apps@.to_multiset()) by {
        sorted@.to_multiset_ensures();
        assert(sorted@.to_multiset().len() == 0);
    }
    while rest.len() > 0
        invariant
            newest_first(sorted@),
            sorted@.to_multiset().add(rest@.to_multiset()) == apps@.to_multiset(),
        decreases rest@.len(),
    {
        let ghost rest_before = rest@;
        let ghost sorted_before = sorted@;
        let app = rest.remove(0);
        let mut at: usize = sorted.len();
        while at > 0 && sorted[at - 1].created_at < app.created_at
            invariant
                at <= sorted@.len(),
                forall|k: int| at <= k < sorted@.len() ==> (#[trigger] sorted@[k]).created_at
                    < app.created_at,
            decreases at,
        {
            at -= 1;
        }
        sorted.insert(at, app);
        proof {
            to_multiset_remove(rest_before, 0);
            to_multiset_insert(sorted_before, at as int, app);
            assert(rest@.to_multiset() =~= rest_before.to_multiset().remove(app));
            assert(sorted@.to_multiset() =~= sorted_before.to_multiset().insert(app));
            assert(rest_before.to_multiset().count(app) > 0) by {
                rest_before.to_multiset_ensures();
                assert(rest_before.contains(rest_before[0]));
            }
            assert(sorted@.to_multiset().add(rest@.to_multiset()) =~= sorted_before.to_multiset().add(
                rest_before.to_multiset(),
            ));
            assert forall|i: int, j: int| 0 <= i < j < sorted@.len() implies (#[trigger] sorted@[i]).created_at
                >= (#[trigger] sorted@[j]).created_at by {
                let a = if i < at {
                    i
                } else {
                    i - 1
                };
                let b = if j < at {
                    j
                } else {
                    j - 1
                };
                if i != at && j != at {
                    assert(sorted_before[a].created_at >= sorted_before[b].created_at);
                } else if i == at {
                    assert(sorted_before[b].created_at < app.created_at);
                } else {
                    if at > 0 {
                        assert(sorted_before[at - 1].created_at >= app.created_at);
                        if i < at - 1 {
                            assert(sorted_before[i].created_at >= sorted_before[at - 1].created_at);
                        }
                    }
                }
            }
        }
    }
    proof {
        rest@.to_multiset_ensures();
        assert(rest@.to_multiset() =~= vstd::multiset::Multiset::empty());
        assert(sorted@.to_multiset().add(rest@.to_multiset()) =~= sorted@.to_multiset());
    }
    sorted
}

/// The title of an app read from a file: for a page of HTML its own title,
/// for any other text the title that the text gives itself; the stem of the
/// file's name, or `Untitled`, where there is neither.
pub open spec fn loaded_title(is_html: bool, content: Seq<char>, stem: Option<Seq<char>>) -> Seq<
    char,
> {
    let fallback = match stem {
        Some(name) => name,
        None => "Untitled"@,
    };
    if is_html {
        match html_title(content) {
            Some(title) => title,
            None => fallback,
        }
    } else {
        title_of(content, fallback)
    }
}

/// The tags of an app read from a file: the default tag for a page of HTML,
/// the tags of the text for any other.
pub open spec fn loaded_tags(is_html: bool, content: Seq<char>) -> Seq<Seq<char>> {
    if is_html {
        default_tags()
    } else {
        tags_of(content)
    }
}

/// The record of an app that was read from the file at `path`, last changed
/// at the time `modified`.
pub fn loaded_app(path: &str, is_html: bool, content: String, stem: Option<&str>, modified: u64) -> (app:
    SavedApp)
    ensures
        app.id@ == path@,
        saved_path(app.file_path) == Some(path@),
        app.content == content,
        app.created_at == modified,
        app.title@ == loaded_title(is_html, content@, path_text(stem)),
        tag_texts(app.tags@) == loaded_tags(is_html, content@),
{
    let fallback = match stem {
        Some(name) => name,
        None => "Untitled",
    };
    let title = if is_html {
        match extract_html_title(content.as_str()) {
            Some(title) => title,
            None => String::from_str(fallback),
        }
    } else {
        extract_title(content.as_str(), fallback)
    };
    let tags = if is_html {
        let mut tags: Vec<String> = Vec::new();
        tags.push(String::from_str("App"));
        assert(tag_texts(tags@) =~= default_tags());
        tags
    } else {
        let tags = generate_tags(content.as_str());
        assert(tag_texts(tags@) =~= texts_of(tags@));
        tags
    };
    SavedApp {
        id: String::from_str(path),
        title,
        content,
        file_path: Some(String::from_str(path)),
        created_at: modified,
        tags,
    }
}

} // verus!
