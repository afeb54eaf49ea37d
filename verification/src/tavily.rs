//! The web search and page extraction tools of the assistant: what they
//! send to the search service, checked and cleaned before it is sent.

use vstd::prelude::*;
use crate::text::{blank, is_blank, texts, trim, trim_spec};
use crate::tools::AiToolError;

verus! {

/// The web search tool, with the key of the search service.
pub struct TavilySearchTool {
    api_key: String,
}

impl TavilySearchTool {
    /// The key that the tool authenticates with.
    pub closed spec fn key(&self) -> Seq<char> {
        self.api_key@
    }

    /// A search tool that authenticates with `api_key`.
    pub fn new(api_key: String) -> (r: Self)
        ensures
            r.key() == api_key@,
    {
        TavilySearchTool { api_key }
    }

    /// The key that the tool authenticates with.
    pub fn api_key(&self) -> (r: &str)
        ensures
            r@ == self.key(),
    {
        self.api_key.as_str()
    }

    /// The name the assistant calls the tool by.
    pub const NAME: &'static str = "tavily_search";

    /// What the tool does, for the assistant.
    pub fn description(&self) -> (r: String)
        ensures
            r@ == "Search the web for current information and return concise results with titles, URLs, summaries, and relevance scores."@,
    {
        "Search the web for current information and return concise results with titles, URLs, summaries, and relevance scores.".to_owned()
    }
}

/// The page extraction tool, with the key of the search service.
pub struct TavilyExtractTool {
    api_key: String,
}

impl TavilyExtractTool {
    /// The key that the tool authenticates with.
    pub closed spec fn key(&self) -> Seq<char> {
        self.api_key@
    }

    /// An extraction tool that authenticates with `api_key`.
    pub fn new(api_key: String) -> (r: Self)
        ensures
            r.key() == api_key@,
    {
        TavilyExtractTool { api_key }
    }

    /// The key that the tool authenticates with.
    pub fn api_key(&self) -> (r: &str)
        ensures
            r@ == self.key(),
    {
        self.api_key.as_str()
    }

    /// The name the assistant calls the tool by.
    pub const NAME: &'static str = "tavily_extract";

    /// What the tool does, for the assistant.
    pub fn description(&self) -> (r: String)
        ensures
            r@ == "Read and extract the main text content from one or more URLs using Tavily. Use this when you need the actual article or page contents from a search result URL."@,
    {
        "Read and extract the main text content from one or more URLs using Tavily. Use this when you need the actual article or page contents from a search result URL.".to_owned()
    }
}

/// What the assistant asks the search tool for.
#[derive(Debug)]
pub struct TavilySearchArgs {
    pub query: String,
    pub search_depth: Option<String>,
    pub topic: Option<String>,
    pub max_results: Option<u8>,
    pub include_domains: Option<Vec<String>>,
    pub exclude_domains: Option<Vec<String>>,
    pub time_range: Option<String>,
}

/// The search request sent to the service.
#[derive(Debug)]
pub struct TavilyRequest {
    pub query: String,
    pub search_depth: Option<String>,
    pub topic: Option<String>,
    pub max_results: Option<u8>,
    pub include_domains: Option<Vec<String>>,
    pub exclude_domains: Option<Vec<String>>,
    pub time_range: Option<String>,
}

/// The view of an optional text.
pub open spec fn opt_text(o: Option<String>) -> Option<Seq<char>> {
    match o {
        Some(s) => Some(s@),
        None => None,
    }
}

/// An optional text kept only when it holds more than whitespace.
pub open spec fn non_blank(o: Option<Seq<char>>) -> Option<Seq<char>> {
    match o {
        Some(s) => if blank(s) {
            None
        } else {
            Some(s)
        },
        None => None,
    }
}

/// Keeps an optional text only when it holds more than whitespace.
fn keep_non_blank(o: Option<String>) -> (r: Option<String>)
    ensures
        opt_text(r) == non_blank(opt_text(o)),
{
    match o {
        Some(s) => if is_blank(s.as_str()) {
            None
        } else {
            Some(s)
        },
        None => None,
    }
}

/// The message of the search tool's refusal of a blank query.
pub open spec fn empty_query_message() -> Seq<char> {
    "query must not be empty"@
}

/// The search request for `args`: the query trimmed, and the optional texts
/// only when they are not blank. A blank query is refused.
pub fn search_request(args: TavilySearchArgs) -> (r: Result<TavilyRequest, AiToolError>)
    ensures
        trim_spec(args.query@).len() == 0 ==> (r matches Err(e) && e.0@ == empty_query_message()),
        trim_spec(args.query@).len() > 0 ==> (r matches Ok(req) && {
            &&& req.query@ == trim_spec(args.query@)
            &&& opt_text(req.search_depth) == non_blank(opt_text(args.search_depth))
            &&& opt_text(req.topic) == non_blank(opt_text(args.topic))
            &&& req.max_results == args.max_results
            &&& req.include_domains == args.include_domains
            &&& req.exclude_domains == args.exclude_domains
            &&& opt_text(req.time_range) == non_blank(opt_text(args.time_range))
        }),
{
    let query = trim(args.query.as_str());
    if query.unicode_len() == 0 {
        return Err(AiToolError("query must not be empty".to_owned()));
    }
    Ok(TavilyRequest {
        query,
        search_depth: keep_non_blank(args.search_depth),
        topic: keep_non_blank(args.topic),
        max_results: args.max_results,
        include_domains: args.include_domains,
        exclude_domains: args.exclude_domains,
        time_range: keep_non_blank(args.time_range),
    })
}

/// What the assistant asks the extraction tool for.
#[derive(Debug)]
pub struct TavilyExtractArgs {
    pub urls: Vec<String>,
    pub query: Option<String>,
}

/// The extraction request sent to the service.
#[derive(Debug)]
pub struct TavilyExtractRequest {
    pub urls: Vec<String>,
    pub query: Option<String>,
    pub extract_depth: Option<String>,
    pub format: Option<String>,
}

/// One extracted page.
#[derive(Debug)]
pub struct TavilyExtractResultOutput {
    pub url: String,
    pub raw_content: String,
    pub images: Option<Vec<String>>,
    pub favicon: Option<String>,
}

/// One page that could not be extracted, with the reason.
#[derive(Debug)]
pub struct TavilyExtractFailedResultOutput {
    pub url: String,
    pub error: String,
}

/// What the extraction tool answers.
#[derive(Debug)]
pub struct TavilyExtractOutput {
    pub results: Vec<TavilyExtractResultOutput>,
    pub failed_results: Vec<TavilyExtractFailedResultOutput>,
}

/// The addresses trimmed, without those that are left empty.
pub open spec fn kept_urls(urls: Seq<Seq<char>>) -> Seq<Seq<char>>
    decreases urls.len(),
{
    if urls.len() == 0 {
        Seq::empty()
    } else {
        let rest = kept_urls(urls.drop_last());
        let t = trim_spec(urls.last());
        if t.len() == 0 {
            rest
        } else {
            rest.push(t)
        }
    }
}

/// The message of the extraction tool's refusal when no address is left.
pub open spec fn no_urls_message() -> Seq<char> {
    "urls must contain at least one non-empty URL"@
}

/// The extraction request for `args`: the addresses trimmed and the empty
/// ones left out, the query only when it is not blank, basic depth and
/// markdown format. Without any address left it is refused.
pub fn extract_request(args: TavilyExtractArgs) -> (r: Result<TavilyExtractRequest, AiToolError>)
    ensures
        kept_urls(texts(args.urls@)).len() == 0 ==> (r matches Err(e) && e.0@ == no_urls_message()),
        kept_urls(texts(args.urls@)).len() > 0 ==> (r matches Ok(req) && {
            &&& texts(req.urls@) == kept_urls(texts(args.urls@))
            &&& opt_text(req.query) == non_blank(opt_text(args.query))
            &&& opt_text(req.extract_depth) == Some("basic"@)
            &&& opt_text(req.format) == Some("markdown"@)
        }),
{
    let n = args.urls.len();
    let mut urls: Vec<String> = Vec::new();
    let mut i: usize = 0;
    while i < n
        invariant
            n == args.urls@.len(),
            i <= n,
            texts(urls@) == kept_urls(texts(args.urls@).subrange(0, i as int)),
        decreases n - i,
    {
        let ghost pre = texts(args.urls@).subrange(0, i as int);
        let ghost cur = texts(args.urls@).subrange(0, i + 1);
        assert(cur.drop_last() =~= pre);
        let t = trim(args.urls[i].as_str());
        if t.unicode_len() > 0 {
            let ghost prev = urls@;
            urls.push(t);
            assert(texts(urls@) =~= texts(prev).push(trim_spec(cur.last())));
        }
        i = i + 1;
    }
    assert(texts(args.urls@).subrange(0, n as int) =~= texts(args.urls@));
    if urls.len() == 0 {
        return Err(AiToolError("urls must contain at least one non-empty URL".to_owned()));
    }
    Ok(TavilyExtractRequest {
        urls,
        query: keep_non_blank(args.query),
        extract_depth: Some("basic".to_owned()),
        format: Some("markdown".to_owned()),
    })
}

} // verus!
