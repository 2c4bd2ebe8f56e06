use pheme::articles::{interpret_response, parse_articles, render_lines, FetchEvent};
use pheme::error::NewsAPIError;

#[test]
fn one_article_parses() {
    let body = r#"{"articles":[{"title":"A","url":"http://x"}]}"#;
    let parsed = parse_articles(body).unwrap();
    assert_eq!(parsed.articles.len(), 1);
    assert_eq!(parsed.articles[0].title, "A");
    assert_eq!(parsed.articles[0].url, "http://x");
}

#[test]
fn several_articles_keep_response_order() {
    let body = r#"{"articles":[
        {"title":"first","url":"u1"},
        {"title":"second","url":"u2"},
        {"title":"third","url":"u3"}
    ]}"#;
    let parsed = parse_articles(body).unwrap();
    let titles: Vec<&str> = parsed.articles.iter().map(|a| a.title.as_str()).collect();
    assert_eq!(titles, ["first", "second", "third"]);
}

#[test]
fn missing_url_fails_the_whole_parse() {
    let body = r#"{"articles":[{"title":"good","url":"u"},{"title":"bad"}]}"#;
    assert_eq!(parse_articles(body), Err(NewsAPIError::ArticleParseFailed));
}

#[test]
fn missing_title_fails_the_whole_parse() {
    let body = r#"{"articles":[{"url":"u"}]}"#;
    assert_eq!(parse_articles(body), Err(NewsAPIError::ArticleParseFailed));
}

#[test]
fn mistyped_title_fails_the_parse() {
    let body = r#"{"articles":[{"title":null,"url":"u"}]}"#;
    assert_eq!(parse_articles(body), Err(NewsAPIError::ArticleParseFailed));
}

#[test]
fn unknown_fields_are_ignored() {
    let body = r#"{
        "status":"ok",
        "totalResults":2.5e1,
        "articles":[{
            "source":{"id":null,"name":"x"},
            "title":"T",
            "url":"u",
            "extra":[1,-2.5,{"deep":[true,false,null]}]
        }]
    }"#;
    let parsed = parse_articles(body).unwrap();
    assert_eq!(parsed.articles.len(), 1);
    assert_eq!(parsed.articles[0].title, "T");
}

#[test]
fn empty_articles_array_parses_empty() {
    let parsed = parse_articles(r#"{"articles":[]}"#).unwrap();
    assert_eq!(parsed.articles.len(), 0);
}

#[test]
fn string_escapes_are_resolved() {
    let body = "{\"articles\":[{\"title\":\"a\\\"b\\\\c\\n\\t\\u0041\",\"url\":\"\\u00e9\"}]}";
    let parsed = parse_articles(body).unwrap();
    assert_eq!(parsed.articles[0].title, "a\"b\\c\n\tA");
    assert_eq!(parsed.articles[0].url, "é");
}

#[test]
fn surrogate_pairs_combine() {
    let body = "{\"articles\":[{\"title\":\"\\uD83D\\uDE00\",\"url\":\"u\"}]}";
    let parsed = parse_articles(body).unwrap();
    assert_eq!(parsed.articles[0].title, "\u{1F600}");
}

#[test]
fn lone_surrogate_escape_fails() {
    let body = "{\"articles\":[{\"title\":\"\\uD83D\",\"url\":\"u\"}]}";
    assert_eq!(parse_articles(body), Err(NewsAPIError::ArticleParseFailed));
}

#[test]
fn truncated_json_fails() {
    assert_eq!(parse_articles("{"), Err(NewsAPIError::ArticleParseFailed));
    assert_eq!(
        parse_articles(r#"{"articles":[{"title":"A","url":"u"}"#),
        Err(NewsAPIError::ArticleParseFailed)
    );
}

#[test]
fn trailing_garbage_fails() {
    assert_eq!(
        parse_articles(r#"{"articles":[]} x"#),
        Err(NewsAPIError::ArticleParseFailed)
    );
}

#[test]
fn wrong_shapes_fail() {
    assert_eq!(parse_articles("[]"), Err(NewsAPIError::ArticleParseFailed));
    assert_eq!(parse_articles("{}"), Err(NewsAPIError::ArticleParseFailed));
    assert_eq!(
        parse_articles(r#"{"articles":{"title":"A"}}"#),
        Err(NewsAPIError::ArticleParseFailed)
    );
    assert_eq!(
        parse_articles(r#"{"articles":["flat"]}"#),
        Err(NewsAPIError::ArticleParseFailed)
    );
}

#[test]
fn malformed_numbers_fail() {
    assert_eq!(
        parse_articles(r#"{"n":01,"articles":[]}"#),
        Err(NewsAPIError::ArticleParseFailed)
    );
    assert_eq!(
        parse_articles(r#"{"n":1.,"articles":[]}"#),
        Err(NewsAPIError::ArticleParseFailed)
    );
}

#[test]
fn well_formed_numbers_pass() {
    let body = r#"{"a":-0.5,"b":12e+3,"c":0,"d":7.25E-2,"articles":[]}"#;
    assert!(parse_articles(body).is_ok());
}

#[test]
fn whitespace_is_allowed_around_tokens() {
    let body = " \t\r\n { \"articles\" : [ { \"title\" : \"A\" , \"url\" : \"u\" } ] } \n";
    let parsed = parse_articles(body).unwrap();
    assert_eq!(parsed.articles[0].title, "A");
}

#[test]
fn transport_failure_is_request_failed() {
    assert_eq!(
        interpret_response(FetchEvent::TransportFailed),
        Err(NewsAPIError::RequestFailed)
    );
}

#[test]
fn non_success_status_is_request_failed() {
    assert_eq!(
        interpret_response(FetchEvent::HttpStatus(404)),
        Err(NewsAPIError::RequestFailed)
    );
    assert_eq!(
        interpret_response(FetchEvent::HttpStatus(500)),
        Err(NewsAPIError::RequestFailed)
    );
}

#[test]
fn undecodable_body_is_decode_failure() {
    assert_eq!(
        interpret_response(FetchEvent::BodyUndecodable),
        Err(NewsAPIError::ResponseDecodeFailed)
    );
}

#[test]
fn good_body_yields_articles() {
    let body = r#"{"articles":[{"title":"A","url":"http://x"}]}"#.to_string();
    let parsed = interpret_response(FetchEvent::Body(body)).unwrap();
    assert_eq!(parsed.articles.len(), 1);
}

#[test]
fn bad_body_is_article_parse_failure() {
    assert_eq!(
        interpret_response(FetchEvent::Body("not json".to_string())),
        Err(NewsAPIError::ArticleParseFailed)
    );
}

#[test]
fn rendering_interleaves_titles_and_links() {
    let parsed =
        parse_articles(r#"{"articles":[{"title":"A","url":"u1"},{"title":"B","url":"u2"}]}"#)
            .unwrap();
    let lines = render_lines(&parsed);
    assert_eq!(lines, ["A", "u1", "B", "u2"]);
}

#[test]
fn error_messages_are_single_lines() {
    assert_eq!(
        NewsAPIError::RequestFailed.message(),
        "Failed to get response from API."
    );
    assert_eq!(
        NewsAPIError::ArticleParseFailed.message(),
        "Failed to parse articles from response."
    );
}
