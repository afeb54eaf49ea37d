use shared::tavily::{
    extract_request, search_request, TavilyExtractArgs, TavilyExtractOutput,
    TavilyExtractResultOutput, TavilyExtractTool, TavilySearchArgs, TavilySearchTool,
};

#[test]
fn tavily_extract_args_and_response_round_trip() {
    let args = TavilyExtractArgs {
        urls: vec!["https://example.com".to_string()],
        query: Some("rust async".to_string()),
    };

    let mut map = serde_json::Map::new();
    map.insert("urls".to_string(), serde_json::Value::from(args.urls.clone()));
    map.insert("query".to_string(), serde_json::Value::from(args.query.clone()));
    let request = serde_json::Value::Object(map);

    assert_eq!(request["urls"][0], "https://example.com");
    assert_eq!(request["query"], "rust async");

    let response = TavilyExtractOutput {
        results: vec![TavilyExtractResultOutput {
            url: "https://example.com".to_string(),
            raw_content: "content".to_string(),
            images: Some(vec!["https://example.com/a.png".to_string()]),
            favicon: Some("https://example.com/favicon.ico".to_string()),
        }],
        failed_results: vec![],
    };

    assert_eq!(response.results.len(), 1);
    assert!(response.failed_results.is_empty());
}

fn search_args(query: &str) -> TavilySearchArgs {
    TavilySearchArgs {
        query: query.to_string(),
        search_depth: None,
        topic: None,
        max_results: None,
        include_domains: None,
        exclude_domains: None,
        time_range: None,
    }
}

#[test]
fn search_request_trims_query_and_drops_blank_options() {
    let mut args = search_args("  rust async \n");
    args.search_depth = Some("  ".to_string());
    args.topic = Some(" news ".to_string());
    args.max_results = Some(5);
    args.include_domains = Some(vec!["docs.rs".to_string()]);
    args.time_range = Some("\t".to_string());
    let req = search_request(args).unwrap();
    assert_eq!(req.query, "rust async");
    assert_eq!(req.search_depth, None);
    assert_eq!(req.topic, Some(" news ".to_string()));
    assert_eq!(req.max_results, Some(5));
    assert_eq!(req.include_domains, Some(vec!["docs.rs".to_string()]));
    assert_eq!(req.exclude_domains, None);
    assert_eq!(req.time_range, None);
}

#[test]
fn search_request_refuses_blank_query() {
    let err = search_request(search_args(" \u{3000}\t ")).unwrap_err();
    assert_eq!(err.0, "query must not be empty");
    assert_eq!(err.message(), "query must not be empty");
}

#[test]
fn extract_request_trims_and_drops_empty_urls() {
    let args = TavilyExtractArgs {
        urls: vec![
            " https://a.example ".to_string(),
            "   ".to_string(),
            "https://b.example".to_string(),
        ],
        query: Some(" ".to_string()),
    };
    let req = extract_request(args).unwrap();
    assert_eq!(req.urls, vec!["https://a.example".to_string(), "https://b.example".to_string()]);
    assert_eq!(req.query, None);
    assert_eq!(req.extract_depth, Some("basic".to_string()));
    assert_eq!(req.format, Some("markdown".to_string()));
}

#[test]
fn extract_request_keeps_query_and_refuses_no_urls() {
    let ok = extract_request(TavilyExtractArgs {
        urls: vec!["x".to_string()],
        query: Some("focus".to_string()),
    })
    .unwrap();
    assert_eq!(ok.query, Some("focus".to_string()));
    let err = extract_request(TavilyExtractArgs { urls: vec![" ".to_string()], query: None })
        .unwrap_err();
    assert_eq!(err.0, "urls must contain at least one non-empty URL");
    let none = extract_request(TavilyExtractArgs { urls: vec![], query: None }).unwrap_err();
    assert_eq!(none.0, "urls must contain at least one non-empty URL");
}

#[test]
fn tavily_tools_keep_their_key_and_names() {
    let s = TavilySearchTool::new("key-1".to_string());
    assert_eq!(s.api_key(), "key-1");
    assert_eq!(TavilySearchTool::NAME, "tavily_search");
    assert!(s.description().starts_with("Search the web"));
    let e = TavilyExtractTool::new("key-2".to_string());
    assert_eq!(e.api_key(), "key-2");
    assert_eq!(TavilyExtractTool::NAME, "tavily_extract");
    assert!(e.description().starts_with("Read and extract"));
}
