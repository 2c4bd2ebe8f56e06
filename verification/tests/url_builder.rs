use pheme::error::NewsAPIError;
use pheme::query::{build_params, generate_url, load_api_key, sign_api_key, Args};

#[test]
fn no_filters_selects_top_headlines_with_default_query() {
    let args = Args::default();
    let url = generate_url(&args, "KEY");
    assert_eq!(url, "https://newsapi.org/v2/top-headlines?apiKey=KEY&q=rust");
}

#[test]
fn sources_only_selects_top_headlines() {
    let mut args = Args::default();
    args.sources = Some("techcrunch".to_string());
    let url = generate_url(&args, "KEY");
    assert_eq!(
        url,
        "https://newsapi.org/v2/top-headlines?apiKey=KEY&sources=techcrunch"
    );
}

#[test]
fn language_and_sort_select_everything() {
    let mut args = Args::default();
    args.language = Some("en".to_string());
    args.sort_by = Some("publishedAt".to_string());
    let url = generate_url(&args, "T");
    assert_eq!(
        url,
        "https://newsapi.org/v2/everything?apiKey=T&language=en&sortBy=publishedAt"
    );
}

#[test]
fn free_text_query_is_percent_encoded() {
    let mut args = Args::default();
    args.q = Some("rust news".to_string());
    let url = generate_url(&args, "KEY");
    assert_eq!(url, "https://newsapi.org/v2/everything?apiKey=KEY&q=rust%20news");
}

#[test]
fn empty_string_filters_count_as_absent() {
    let mut args = Args::default();
    args.q = Some(String::new());
    args.language = Some(String::new());
    let url = generate_url(&args, "KEY");
    assert_eq!(url, "https://newsapi.org/v2/top-headlines?apiKey=KEY&q=rust");
}

#[test]
fn params_keep_a_fixed_order() {
    let mut args = Args::default();
    args.q = Some("ferris".to_string());
    args.search_in = Some("title".to_string());
    args.sources = Some("a,b".to_string());
    args.domains = Some("x.org".to_string());
    args.exclude_domains = Some("y.org".to_string());
    args.language = Some("de".to_string());
    args.sort_by = Some("popularity".to_string());
    args.number = Some(25);
    args.page = Some(3);
    let params = build_params(&args);
    assert_eq!(
        params,
        "&q=ferris&searchIn=title&sources=a,b&domains=x.org&excludeDomains=y.org&language=de&sortBy=popularity&pageSize=25&page=3"
    );
}

#[test]
fn numeric_params_pass_through_unvalidated() {
    let mut args = Args::default();
    args.number = Some(1000);
    args.page = Some(0);
    let params = build_params(&args);
    assert_eq!(params, "&pageSize=1000&page=0");
}

#[test]
fn sign_api_key_attaches_the_token() {
    let signed = sign_api_key("https://newsapi.org/v2/top-headlines", "SECRET");
    assert_eq!(signed, "https://newsapi.org/v2/top-headlines?apiKey=SECRET");
}

#[test]
fn stored_key_is_used_without_persisting() {
    let r = load_api_key(Some("abc".to_string()), None);
    assert_eq!(r, Ok(("abc".to_string(), false)));
}

#[test]
fn entered_key_is_used_and_persisted() {
    let r = load_api_key(None, Some("fresh".to_string()));
    assert_eq!(r, Ok(("fresh".to_string(), true)));
}

#[test]
fn no_key_is_a_configuration_error() {
    let r = load_api_key(None, None);
    assert_eq!(r, Err(NewsAPIError::ConfigurationError));
}
