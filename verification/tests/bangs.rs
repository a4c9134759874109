use popmax::bangs::{all_bangs, parse_bang, search_url};

#[test]
fn parse_google_bang() {
    let (bang, query) = parse_bang("!g hello world").expect("should parse !g");
    assert_eq!(bang.prefix, "!g");
    assert_eq!(bang.name, "Google");
    assert_eq!(query, "hello world");
}

#[test]
fn parse_youtube_bang() {
    let (bang, query) = parse_bang("!y test video").expect("should parse !y");
    assert_eq!(bang.prefix, "!y");
    assert_eq!(query, "test video");
}

#[test]
fn parse_bang_with_leading_spaces() {
    let (bang, query) = parse_bang("  !g query").expect("should parse with leading whitespace");
    assert_eq!(bang.prefix, "!g");
    assert_eq!(query, "query");
}

#[test]
fn parse_bang_empty_query_returns_none() {
    assert!(parse_bang("!g").is_none(), "bare !g should return None");
    assert!(
        parse_bang("!g  ").is_none(),
        "!g with only spaces should return None"
    );
}

#[test]
fn parse_bang_unknown_prefix_returns_none() {
    assert!(parse_bang("!z foo").is_none());
    assert!(parse_bang("!!bar").is_none());
}

#[test]
fn parse_bang_no_bang_returns_none() {
    assert!(parse_bang("hello world").is_none());
}

#[test]
fn search_url_encodes_spaces() {
    let (bang, _) = parse_bang("!g hello world").unwrap();
    let url = search_url(&bang, "hello world");
    assert_eq!(url, "https://google.com/search?q=hello%20world");
}

#[test]
fn search_url_encodes_special_chars() {
    let (bang, _) = parse_bang("!g a&b=c").unwrap();
    let url = search_url(&bang, "a&b=c");
    assert_eq!(url, "https://google.com/search?q=a%26b%3Dc");
}

#[test]
fn all_bangs_have_unique_prefixes() {
    let mut prefixes = std::collections::HashSet::new();
    for bang in all_bangs() {
        assert!(
            prefixes.insert(bang.prefix),
            "duplicate prefix: {}",
            bang.prefix
        );
    }
}

#[test]
fn all_bangs_produce_valid_urls() {
    for bang in all_bangs() {
        let url = search_url(&bang, "test");
        assert!(
            url.contains("test"),
            "bang {} did not insert query into URL",
            bang.prefix
        );
        assert!(
            url.starts_with("https://"),
            "bang {} URL does not start with https",
            bang.prefix
        );
    }
}

#[test]
fn parse_github_bang() {
    let (bang, query) = parse_bang("!gh rust").expect("should parse !gh");
    assert_eq!(bang.prefix, "!gh");
    assert_eq!(bang.name, "GitHub");
    assert_eq!(query, "rust");
    assert_eq!(search_url(&bang, query), "https://github.com/search?q=rust");
}

#[test]
fn parse_bang_takes_query_glued_to_prefix() {
    let (bang, query) = parse_bang("!gfoo").unwrap();
    assert_eq!(bang.name, "Google");
    assert_eq!(query, "foo");
    let (bang, query) = parse_bang("!gx foo").unwrap();
    assert_eq!(bang.name, "Google");
    assert_eq!(query, "x foo");
    let (bang, query) = parse_bang("!ghrust").unwrap();
    assert_eq!(bang.name, "GitHub");
    assert_eq!(query, "rust");
    let (bang, query) = parse_bang("!g\thello").unwrap();
    assert_eq!(bang.name, "Google");
    assert_eq!(query, "hello");
}

#[test]
fn bare_longer_prefix_falls_back_to_shorter_bang() {
    // "!gh" alone leaves no query for GitHub, so Google searches for "h".
    let (bang, query) = parse_bang("!gh").unwrap();
    assert_eq!(bang.name, "Google");
    assert_eq!(query, "h");
    assert!(parse_bang("!gh   ").is_some());
}

#[test]
fn parse_bang_trims_surrounding_whitespace() {
    let (bang, query) = parse_bang("\t !w   quantum mechanics  \n").unwrap();
    assert_eq!(bang.name, "Wikipedia");
    assert_eq!(query, "quantum mechanics");
}

#[test]
fn search_url_encodes_utf8_bytes() {
    let (bang, _) = parse_bang("!y x").unwrap();
    assert_eq!(
        search_url(&bang, "é~-_."),
        "https://youtube.com/results?search_query=%C3%A9~-_."
    );
}

#[test]
fn every_bang_url_is_head_plus_encoded_query() {
    let heads = [
        "https://google.com/search?q=",
        "https://youtube.com/results?search_query=",
        "https://en.wikipedia.org/wiki/Special:Search?search=",
        "https://github.com/search?q=",
        "https://www.reddit.com/search/?q=",
        "https://www.amazon.com/s?k=",
        "https://stackoverflow.com/search?q=",
        "https://developer.mozilla.org/en-US/search?q=",
        "https://x.com/search?q=",
    ];
    let bangs = all_bangs();
    assert_eq!(bangs.len(), heads.len());
    for (bang, head) in bangs.iter().zip(heads.iter()) {
        assert_eq!(search_url(bang, "a b"), format!("{}a%20b", head));
    }
}

#[test]
fn every_prefix_then_query_selects_its_own_bang() {
    for b in all_bangs() {
        let input = format!("{} rust lang  ", b.prefix);
        let (found, query) = parse_bang(&input).expect("a bang with a query parses");
        assert_eq!(found.prefix, b.prefix);
        assert_eq!(found.name, b.name);
        assert_eq!(query, "rust lang");
    }
}
