use crate::text::{
    ascii_lower, chars_of, contains_text, find_first, find_text, lowercase_text, push_text,
    same_text, text_of, to_ascii_lower, to_lowercase,
};
use crate::views::shared::{clone_tags, tag_texts, SavedApp};
use vstd::prelude::*;
use vstd::string::*;

verus! {

/// What a search is asked: the text to look for, and how many results at
/// most.
#[derive(Clone, Debug, PartialEq, Eq)]
pub struct SearchAppsArgs {
    pub query: String,
    pub limit: usize,
}

/// How many results a search gives where it is not told.
pub fn default_limit() -> (limit: usize)
    ensures
        limit == 5,
{
    5
}

/// The tool that searches the saved apps, as they stood when it was made.
#[derive(Clone, Debug, PartialEq, Eq)]
pub struct SearchAppsTool {
    pub apps: Vec<SavedApp>,
}

/// One result of a search.
#[derive(Clone, Debug, PartialEq, Eq)]
pub struct SearchHit {
    pub id: String,
    pub title: String,
    pub tags: Vec<String>,
    pub snippet: String,
    pub created_at: u64,
}

/// A result of a search as a mathematical value.
pub struct HitModel {
    pub id: Seq<char>,
    pub title: Seq<char>,
    pub tags: Seq<Seq<char>>,
    pub snippet: Seq<char>,
    pub created_at: u64,
}

/// The most results that a search gives.
pub const SEARCH_CAP: usize = 20;

/// The most entries that a list gives.
pub const LIST_CAP: usize = 50;

/// How many characters of context a snippet shows, and a preview holds.
pub const SNIPPET_CHARS: usize = 100;

/// The first `count` characters of `s`, or all of it where it is shorter.
pub open spec fn head(s: Seq<char>, count: nat) -> Seq<char> {
    if s.len() <= count {
        s
    } else {
        s.subrange(0, count as int)
    }
}

/// The smaller of two numbers.
pub open spec fn least(a: int, b: int) -> int {
    if a <= b {
        a
    } else {
        b
    }
}

/// The part of `content` around the first place where `query` stands in it,
/// letter case aside: half of `context` characters before the place, the
/// length of the query, and half of `context` characters more; with `...`
/// on each side on which `content` goes on. The place is counted in the
/// lower case of `content`. Where `query` stands nowhere, the first
/// `context` characters of `content`.
pub open spec fn snippet_of(content: Seq<char>, query: Seq<char>, context: nat) -> Seq<char> {
    match find_first(lowercase_text(content), lowercase_text(query)) {
        Some(place) => {
            let end = least(place + query.len() + context / 2, content.len() as int);
            let start = least(
                if place >= context / 2 {
                    place - context / 2
                } else {
                    0
                },
                end,
            );
            (if start > 0 {
                "..."@
            } else {
                Seq::empty()
            }) + content.subrange(start, end) + (if end < content.len() {
                "..."@
            } else {
                Seq::empty()
            })
        },
        None => head(content, context),
    }
}

/// The first `count` characters of `chars`.
pub fn head_of(chars: &Vec<char>, count: usize) -> (out: String)
    ensures
        out@ == head(chars@, count as nat),
{
    if chars.len() <= count {
        let out = text_of(chars, 0, chars.len());
        assert(chars@.subrange(0, chars@.len() as int) =~= chars@);
        out
    } else {
        text_of(chars, 0, count)
    }
}

/// The part of `content` around the first place where `query` stands in it.
pub fn extract_snippet(content: &str, query: &str, context_chars: usize) -> (snippet: String)
    ensures
        snippet@ == snippet_of(content@, query@, context_chars as nat),
{
    let chars = chars_of(content);
    let lower = chars_of(to_lowercase(content).as_str());
    let wanted = chars_of(to_lowercase(query).as_str());
    let query_len = chars_of(query).len();
    match find_text(&lower, &wanted) {
        Some(place) => {
            let half = context_chars / 2;
            let total = chars.len();
            let reach: usize = if place >= total || query_len >= total - place || half >= total
                - place - query_len {
                total
            } else {
                place + query_len + half
            };
            let back: usize = if place >= half {
                place - half
            } else {
                0
            };
            let start: usize = if back <= reach {
                back
            } else {
                reach
            };
            let mut snippet = String::new();
            if start > 0 {
                push_text(&mut snippet, "...");
            }
            let middle = text_of(&chars, start, reach);
            push_text(&mut snippet, middle.as_str());
            if reach < total {
                push_text(&mut snippet, "...");
            }
            assert(snippet@ =~= snippet_of(content@, query@, context_chars as nat));
            snippet
        },
        None => head_of(&chars, context_chars),
    }
}

/// Whether a search for `query` finds `app`: the query stands in its title
/// or in its content, letter case aside.
pub open spec fn app_matches(app: SavedApp, query: Seq<char>) -> bool {
    contains_text(lowercase_text(app.title@), lowercase_text(query)) || contains_text(
        lowercase_text(app.content@),
        lowercase_text(query),
    )
}

/// The result for an app that a search for `query` finds. Its snippet is
/// taken around the query where the content holds it, and is the start of
/// the content else.
pub open spec fn hit_of(app: SavedApp, query: Seq<char>) -> HitModel {
    HitModel {
        id: app.id@,
        title: app.title@,
        tags: tag_texts(app.tags@),
        snippet: if contains_text(lowercase_text(app.content@), lowercase_text(query)) {
            snippet_of(app.content@, query, SNIPPET_CHARS as nat)
        } else {
            head(app.content@, SNIPPET_CHARS as nat)
        },
        created_at: app.created_at,
    }
}

/// The results for the apps from `at` on, in their order, with `found`
/// results made before: the search ends behind the result that brings their
/// number to `cap`, so it gives one result even where `cap` is 0.
pub open spec fn hits_from(apps: Seq<SavedApp>, query: Seq<char>, cap: nat, at: int, found: nat) -> Seq<
    HitModel,
>
    decreases apps.len() - at,
{
    if at < 0 || at >= apps.len() {
        Seq::empty()
    } else if app_matches(apps[at], query) {
        if found + 1 >= cap {
            seq![hit_of(apps[at], query)]
        } else {
            seq![hit_of(apps[at], query)] + hits_from(apps, query, cap, at + 1, found + 1)
        }
    } else {
        hits_from(apps, query, cap, at + 1, found)
    }
}

/// The results of a search for `query` with the limit `limit`, which counts
/// up to [`SEARCH_CAP`].
pub open spec fn search_results(apps: Seq<SavedApp>, query: Seq<char>, limit: usize) -> Seq<
    HitModel,
> {
    hits_from(apps, query, least(limit as int, SEARCH_CAP as int) as nat, 0, 0)
}

impl SearchHit {
    pub open spec fn view(&self) -> HitModel {
        HitModel {
            id: self.id@,
            title: self.title@,
            tags: tag_texts(self.tags@),
            snippet: self.snippet@,
            created_at: self.created_at,
        }
    }
}

/// The results as mathematical values.
pub open spec fn hit_models(hits: Seq<SearchHit>) -> Seq<HitModel> {
    hits.map_values(|h: SearchHit| h@)
}

/// Searches `apps` for `query`.
pub fn search_saved(apps: &Vec<SavedApp>, query: &str, limit: usize) -> (hits: Vec<SearchHit>)
    ensures
        hit_models(hits@) == search_results(apps@, query@, limit),
{
    let cap: usize = if limit <= SEARCH_CAP {
        limit
    } else {
        SEARCH_CAP
    };
    let wanted = chars_of(to_lowercase(query).as_str());
    let mut hits: Vec<SearchHit> = Vec::new();
    let mut i: usize = 0;
    assert(hit_models(hits@) =~= Seq::<HitModel>::empty());
    while i < apps.len()
        invariant
            i <= apps@.len(),
            cap == least(limit as int, SEARCH_CAP as int),
            wanted@ == lowercase_text(query@),
            hits@.len() <= i,
            search_results(apps@, query@, limit) == hit_models(hits@) + hits_from(
                apps@,
                query@,
                cap as nat,
                i as int,
                hits@.len(),
            ),
        decreases apps@.len() - i,
    {
        let app = &apps[i];
        let title = chars_of(to_lowercase(app.title.as_str()).as_str());
        let content = chars_of(to_lowercase(app.content.as_str()).as_str());
        let in_title = find_text(&title, &wanted).is_some();
        let in_content = find_text(&content, &wanted).is_some();
        if in_title || in_content {
            let snippet = if in_content {
                extract_snippet(app.content.as_str(), query, SNIPPET_CHARS)
            } else {
                head_of(&chars_of(app.content.as_str()), SNIPPET_CHARS)
            };
            let ghost before = hits@;
            let hit = SearchHit {
                id: app.id.clone(),
                title: app.title.clone(),
                tags: clone_tags(&app.tags),
                snippet,
                created_at: app.created_at,
            };
            assert(hit@ == hit_of(*app, query@));
            hits.push(hit);
            assert(hit_models(hits@) =~= hit_models(before) + seq![hit_of(*app, query@)]);
            if hits.len() >= cap {
                assert(search_results(apps@, query@, limit) =~= hit_models(hits@));
                return hits;
            }
            assert(search_results(apps@, query@, limit) =~= hit_models(hits@) + hits_from(
                apps@,
                query@,
                cap as nat,
                i + 1,
                hits@.len(),
            ));
        }
        i += 1;
    }
    assert(search_results(apps@, query@, limit) =~= hit_models(hits@));
    hits
}

/// What a search says where it finds nothing.
pub open spec fn nothing_found_text(what: Seq<char>, query: Seq<char>) -> Seq<char> {
    "No "@ + what + " found matching '"@ + query + "'"@
}

/// What a search for `query` says where it finds nothing among the things
/// called `what`.
pub fn nothing_found(what: &str, query: &str) -> (text: String)
    ensures
        text@ == nothing_found_text(what@, query@),
{
    let mut text = String::from_str("No ");
    push_text(&mut text, what);
    push_text(&mut text, " found matching '");
    push_text(&mut text, query);
    push_text(&mut text, "'");
    text
}

impl SearchAppsTool {
    pub fn new(apps: Vec<SavedApp>) -> (tool: SearchAppsTool)
        ensures
            tool.apps == apps,
    {
        SearchAppsTool { apps }
    }

    /// The apps that hold the query in their title or content, letter case
    /// aside, in the order in which they are saved, each with a snippet.
    pub fn search(&self, args: &SearchAppsArgs) -> (hits: Vec<SearchHit>)
        ensures
            hit_models(hits@) == search_results(self.apps@, args.query@, args.limit),
    {
        search_saved(&self.apps, args.query.as_str(), args.limit)
    }

    /// What the tool says where a search finds nothing.
    pub fn nothing_found(&self, args: &SearchAppsArgs) -> (text: String)
        ensures
            text@ == nothing_found_text("apps"@, args.query@),
    {
        nothing_found("apps", args.query.as_str())
    }
}

/// What a list is asked: the tag that the entries must have, if any, and
/// how many entries at most.
#[derive(Clone, Debug, PartialEq, Eq)]
pub struct GetAppsListArgs {
    pub tag_filter: Option<String>,
    pub limit: usize,
}

/// How many entries a list gives where it is not told.
pub fn default_list_limit() -> (limit: usize)
    ensures
        limit == 10,
{
    10
}

/// The tool that lists the saved apps, as they stood when it was made.
#[derive(Clone, Debug, PartialEq, Eq)]
pub struct GetAppsListTool {
    pub apps: Vec<SavedApp>,
}

/// One entry of a list.
#[derive(Clone, Debug, PartialEq, Eq)]
pub struct ListEntry {
    pub id: String,
    pub title: String,
    pub tags: Vec<String>,
    pub created_at: u64,
    pub preview: String,
}

/// An entry of a list as a mathematical value.
pub struct EntryModel {
    pub id: Seq<char>,
    pub title: Seq<char>,
    pub tags: Seq<Seq<char>>,
    pub created_at: u64,
    pub preview: Seq<char>,
}

/// Whether one of `tags` is `tag`, ASCII letter case aside.
pub open spec fn has_tag(tags: Seq<String>, tag: Seq<char>) -> bool {
    exists|i: int| 0 <= i < tags.len() && ascii_lower((#[trigger] tags[i])@) == ascii_lower(tag)
}

/// Whether a list with the filter `filter` holds `app`.
pub open spec fn listed(app: SavedApp, filter: Option<Seq<char>>) -> bool {
    match filter {
        Some(tag) => has_tag(app.tags@, tag),
        None => true,
    }
}

/// The entry for an app: its preview is the start of its content.
pub open spec fn entry_of(app: SavedApp) -> EntryModel {
    EntryModel {
        id: app.id@,
        title: app.title@,
        tags: tag_texts(app.tags@),
        created_at: app.created_at,
        preview: head(app.content@, SNIPPET_CHARS as nat),
    }
}

/// The entries for the apps from `at` on, in their order, with `found`
/// entries made before and no more than `cap` in all.
pub open spec fn entries_from(
    apps: Seq<SavedApp>,
    filter: Option<Seq<char>>,
    cap: nat,
    at: int,
    found: nat,
) -> Seq<EntryModel>
    decreases apps.len() - at,
{
    if at < 0 || at >= apps.len() || found >= cap {
        Seq::empty()
    } else if listed(apps[at], filter) {
        seq![entry_of(apps[at])] + entries_from(apps, filter, cap, at + 1, found + 1)
    } else {
        entries_from(apps, filter, cap, at + 1, found)
    }
}

/// The entries of a list with the filter `filter` and the limit `limit`,
/// which counts up to [`LIST_CAP`].
pub open spec fn list_entries(apps: Seq<SavedApp>, filter: Option<Seq<char>>, limit: usize) -> Seq<
    EntryModel,
> {
    entries_from(apps, filter, least(limit as int, LIST_CAP as int) as nat, 0, 0)
}

impl ListEntry {
    pub open spec fn view(&self) -> EntryModel {
        EntryModel {
            id: self.id@,
            title: self.title@,
            tags: tag_texts(self.tags@),
            created_at: self.created_at,
            preview: self.preview@,
        }
    }
}

/// The entries as mathematical values.
pub open spec fn entry_models(entries: Seq<ListEntry>) -> Seq<EntryModel> {
    entries.map_values(|e: ListEntry| e@)
}

/// Whether one of `tags` is `tag`, ASCII letter case aside.
pub fn tags_hold(tags: &Vec<String>, tag: &str) -> (yes: bool)
    ensures
        yes == has_tag(tags@, tag@),
{
    let wanted = to_ascii_lower(tag);
    let mut i: usize = 0;
    while i < tags.len()
        invariant
            i <= tags@.len(),
            wanted@ == ascii_lower(tag@),
            forall|k: int| 0 <= k < i ==> ascii_lower((#[trigger] tags@[k])@) != ascii_lower(tag@),
        decreases tags@.len() - i,
    {
        let lower = to_ascii_lower(tags[i].as_str());
        if same_text(lower.as_str(), wanted.as_str()) {
            return true;
        }
        i += 1;
    }
    false
}

/// The text of an optional filter.
pub open spec fn filter_text(filter: Option<&str>) -> Option<Seq<char>> {
    match filter {
        Some(tag) => Some(tag@),
        None => None,
    }
}

/// Lists `apps`, those with the tag `tag_filter` where there is one.
pub fn list_saved(apps: &Vec<SavedApp>, tag_filter: Option<&str>, limit: usize) -> (entries: Vec<
    ListEntry,
>)
    ensures
        entry_models(entries@) == list_entries(apps@, filter_text(tag_filter), limit),
{
    let cap: usize = if limit <= LIST_CAP {
        limit
    } else {
        LIST_CAP
    };
    let mut entries: Vec<ListEntry> = Vec::new();
    let mut i: usize = 0;
    assert(entry_models(entries@) =~= Seq::<EntryModel>::empty());
    while i < apps.len() && entries.len() < cap
        invariant
            i <= apps@.len(),
            cap == least(limit as int, LIST_CAP as int),
            entries@.len() <= i,
            list_entries(apps@, filter_text(tag_filter), limit) == entry_models(entries@)
                + entries_from(
                apps@,
                filter_text(tag_filter),
                cap as nat,
                i as int,
                entries@.len(),
            ),
        decreases apps@.len() - i,
    {
        let app = &apps[i];
        let keep = match tag_filter {
            Some(tag) => tags_hold(&app.tags, tag),
            None => true,
        };
        if keep {
            let ghost before = entries@;
            let entry = ListEntry {
                id: app.id.clone(),
                title: app.title.clone(),
                tags: clone_tags(&app.tags),
                created_at: app.created_at,
                preview: head_of(&chars_of(app.content.as_str()), SNIPPET_CHARS),
            };
            assert(entry@ == entry_of(*app));
            entries.push(entry);
            assert(entry_models(entries@) =~= entry_models(before) + seq![entry_of(*app)]);
            assert(list_entries(apps@, filter_text(tag_filter), limit) =~= entry_models(entries@)
                + entries_from(
                apps@,
                filter_text(tag_filter),
                cap as nat,
                i + 1,
                entries@.len(),
            ));
        }
        i += 1;
    }
    assert(list_entries(apps@, filter_text(tag_filter), limit) =~= entry_models(entries@));
    entries
}

/// What a list says where it holds nothing.
pub open spec fn nothing_listed_text(what: Seq<char>, filter: Option<Seq<char>>) -> Seq<char> {
    match filter {
        Some(tag) => "No "@ + what + " found with tag '"@ + tag + "'"@,
        None => "No "@ + what + " found"@,
    }
}

/// What a list of the things called `what` says where it holds nothing.
pub fn nothing_listed(what: &str, tag_filter: Option<&str>) -> (text: String)
    ensures
        text@ == nothing_listed_text(what@, filter_text(tag_filter)),
{
    let mut text = String::from_str("No ");
    push_text(&mut text, what);
    match tag_filter {
        Some(tag) => {
            push_text(&mut text, " found with tag '");
            push_text(&mut text, tag);
            push_text(&mut text, "'");
        },
        None => {
            push_text(&mut text, " found");
        },
    }
    text
}

/// The text of the filter that a list is asked with.
pub open spec fn filter_view(tag_filter: Option<String>) -> Option<Seq<char>> {
    match tag_filter {
        Some(tag) => Some(tag@),
        None => None,
    }
}

/// The filter that a list is asked with, borrowed.
pub fn filter_of(tag_filter: &Option<String>) -> (filter: Option<&str>)
    ensures
        filter_text(filter) == filter_view(*tag_filter),
{
    match tag_filter {
        Some(tag) => Some(tag.as_str()),
        None => None,
    }
}

impl GetAppsListTool {
    pub fn new(apps: Vec<SavedApp>) -> (tool: GetAppsListTool)
        ensures
            tool.apps == apps,
    {
        GetAppsListTool { apps }
    }

    /// The apps, those with the tag of the filter where there is one, in
    /// the order in which they are saved, each with a preview.
    pub fn list(&self, args: &GetAppsListArgs) -> (entries: Vec<ListEntry>)
        ensures
            entry_models(entries@) == list_entries(
                self.apps@,
                filter_view(args.tag_filter),
                args.limit,
            ),
    {
        list_saved(&self.apps, filter_of(&args.tag_filter), args.limit)
    }

    /// What the tool says where a list holds nothing.
    pub fn nothing_listed(&self, args: &GetAppsListArgs) -> (text: String)
        ensures
            text@ == nothing_listed_text("apps"@, filter_view(args.tag_filter)),
    {
        nothing_listed("apps", filter_of(&args.tag_filter))
    }
}

} // verus!
