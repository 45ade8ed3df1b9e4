use crate::tools::apps::{
    entry_models, filter_of, filter_view, hit_models, list_entries, list_saved, nothing_found,
    nothing_found_text, nothing_listed, nothing_listed_text, search_results, search_saved,
    ListEntry, SearchHit,
};
use crate::views::shared::SavedDoc;
use vstd::prelude::*;

verus! {

/// What a search of the documents is asked: the text to look for, and how
/// many results at most.
#[derive(Clone, Debug, PartialEq, Eq)]
pub struct SearchDocsArgs {
    pub query: String,
    pub limit: usize,
}

/// The tool that searches the saved documents, as they stood when it was
/// made.
#[derive(Clone, Debug, PartialEq, Eq)]
pub struct SearchDocsTool {
    pub docs: Vec<SavedDoc>,
}

/// What a list of the documents is asked: the tag that the entries must
/// have, if any, and how many entries at most.
#[derive(Clone, Debug, PartialEq, Eq)]
pub struct GetDocsListArgs {
    pub tag_filter: Option<String>,
    pub limit: usize,
}

/// The tool that lists the saved documents, as they stood when it was made.
#[derive(Clone, Debug, PartialEq, Eq)]
pub struct GetDocsListTool {
    pub docs: Vec<SavedDoc>,
}

impl SearchDocsTool {
    pub fn new(docs: Vec<SavedDoc>) -> (tool: SearchDocsTool)
        ensures
            tool.docs == docs,
    {
        SearchDocsTool { docs }
    }

    /// The documents that hold the query in their title or content, letter
    /// case aside, in the order in which they are saved, each with a
    /// snippet.
    pub fn search(&self, args: &SearchDocsArgs) -> (hits: Vec<SearchHit>)
        ensures
            hit_models(hits@) == search_results(self.docs@, args.query@, args.limit),
    {
        search_saved(&self.docs, args.query.as_str(), args.limit)
    }

    /// What the tool says where a search finds nothing.
    pub fn nothing_found(&self, args: &SearchDocsArgs) -> (text: String)
        ensures
            text@ == nothing_found_text("documents"@, args.query@),
    {
        nothing_found("documents", args.query.as_str())
    }
}

impl GetDocsListTool {
    pub fn new(docs: Vec<SavedDoc>) -> (tool: GetDocsListTool)
        ensures
            tool.docs == docs,
    {
        GetDocsListTool { docs }
    }

    /// The documents, those with the tag of the filter where there is one,
    /// in the order in which they are saved, each with a preview.
    pub fn list(&self, args: &GetDocsListArgs) -> (entries: Vec<ListEntry>)
        ensures
            entry_models(entries@) == list_entries(
                self.docs@,
                filter_view(args.tag_filter),
                args.limit,
            ),
    {
        list_saved(&self.docs, filter_of(&args.tag_filter), args.limit)
    }

    /// What the tool says where a list holds nothing.
    pub fn nothing_listed(&self, args: &GetDocsListArgs) -> (text: String)
        ensures
            text@ == nothing_listed_text("documents"@, filter_view(args.tag_filter)),
    {
        nothing_listed("documents", filter_of(&args.tag_filter))
    }
}

} // verus!
