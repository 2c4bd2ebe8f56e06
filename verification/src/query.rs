//! The URL builder: from a set of optional search filters and an
//! authentication token to a complete request URL.
//!
//! The endpoint is chosen by the filters: a query that sets nothing beyond
//! a plain source list asks for top headlines, anything else searches the
//! whole corpus.  A query with no filters at all falls back to a fixed
//! default search term instead of requesting an unbounded result set.

use vstd::prelude::*;
use vstd::string::*;

use crate::error::NewsAPIError;
use crate::strutil::{dec_str, u32_dec};
use crate::urlenc::{encode_component, percent_encoded};

verus! {

/// The optional search filters of one request, each independently optional.
/// An empty text counts as absent.
#[derive(Debug, Default)]
pub struct Args {
    /// Keywords or phrases to search for.
    pub q: Option<String>,
    /// The fields to restrict the search to (comma-separated).
    pub search_in: Option<String>,
    /// Comma-separated identifiers of news sources or blogs.
    pub sources: Option<String>,
    /// Comma-separated domains to restrict the search to.
    pub domains: Option<String>,
    /// Comma-separated domains to remove from the results.
    pub exclude_domains: Option<String>,
    /// The 2-letter ISO-639-1 code of the language wanted.
    pub language: Option<String>,
    /// The order to sort the articles in.
    pub sort_by: Option<String>,
    /// The number of results per page.
    pub number: Option<u32>,
    /// The page to return.
    pub page: Option<u32>,
}

/// True when an optional text filter is populated; an empty text counts
/// as absent.
pub open spec fn text_present(f: Option<String>) -> bool {
    match f {
        Some(s) => s@.len() > 0,
        None => false,
    }
}

/// The query-string piece of an optional plain-text filter: its parameter
/// name followed by the unencoded value, or nothing when absent.
pub open spec fn opt_text_param(prefix: Seq<char>, f: Option<String>) -> Seq<char> {
    match f {
        Some(s) => if s@.len() > 0 {
            prefix + s@
        } else {
            Seq::empty()
        },
        None => Seq::empty(),
    }
}

/// The query-string piece of the free-text query: `&q=` followed by the
/// percent-encoded text, or nothing when absent.
pub open spec fn q_param(f: Option<String>) -> Seq<char> {
    match f {
        Some(s) => if s@.len() > 0 {
            "&q="@ + percent_encoded(s@)
        } else {
            Seq::empty()
        },
        None => Seq::empty(),
    }
}

/// The query-string piece of an optional numeric filter.
pub open spec fn num_param(prefix: Seq<char>, f: Option<u32>) -> Seq<char> {
    match f {
        Some(n) => prefix + dec_str(n as nat),
        None => Seq::empty(),
    }
}

/// The full query-parameter string of a set of filters, in a fixed order.
pub open spec fn params_of(a: Args) -> Seq<char> {
    q_param(a.q) + opt_text_param("&searchIn="@, a.search_in) + opt_text_param(
        "&sources="@,
        a.sources,
    ) + opt_text_param("&domains="@, a.domains) + opt_text_param("&excludeDomains="@, a.exclude_domains)
        + opt_text_param("&language="@, a.language) + opt_text_param("&sortBy="@, a.sort_by)
        + num_param("&pageSize="@, a.number) + num_param("&page="@, a.page)
}

/// True when some filter other than the plain source list is populated.
pub open spec fn filter_besides_sources(a: Args) -> bool {
    ||| text_present(a.q)
    ||| text_present(a.search_in)
    ||| text_present(a.domains)
    ||| text_present(a.exclude_domains)
    ||| text_present(a.language)
    ||| text_present(a.sort_by)
    ||| a.number is Some
    ||| a.page is Some
}

/// True when any filter at all is populated.
pub open spec fn any_filter(a: Args) -> bool {
    filter_besides_sources(a) || text_present(a.sources)
}

/// The endpoint a set of filters selects: a plain source list (or nothing)
/// asks for top headlines, any other filter searches everything.
pub open spec fn endpoint_of(a: Args) -> Seq<char> {
    if filter_besides_sources(a) {
        "https://newsapi.org/v2/everything"@
    } else {
        "https://newsapi.org/v2/top-headlines"@
    }
}

/// The complete request URL for a set of filters and a token: the endpoint,
/// the token, and the parameters, with the fixed fallback query term when
/// no filter is populated.
pub open spec fn url_of(a: Args, key: Seq<char>) -> Seq<char> {
    endpoint_of(a) + "?apiKey="@ + key + (if params_of(a).len() == 0 {
        "&q=rust"@
    } else {
        params_of(a)
    })
}

/// True when an optional text filter is populated.
fn text_is_present(f: &Option<String>) -> (r: bool)
    ensures
        r == text_present(*f),
{
    match f {
        Some(s) => s.as_str().unicode_len() > 0,
        None => false,
    }
}

/// Build the query-parameter string for a set of filters.  Populated fields
/// are appended in a fixed order; the free-text query is percent-encoded,
/// structured values pass through unencoded.
pub fn build_params(args: &Args) -> (r: String)
    ensures
        r@ == params_of(*args),
{
    let mut params = String::new();
    let ghost e1 = q_param(args.q);
    if let Some(q) = &args.q {
        if q.as_str().unicode_len() > 0 {
            let encoded = encode_component(q.as_str());
            params.append("&q=");
            params.append(encoded.as_str());
        }
    }
    proof {
        assert(params@ =~= e1);
    }
    let ghost e2 = e1 + opt_text_param("&searchIn="@, args.search_in);
    if let Some(search_in) = &args.search_in {
        if search_in.as_str().unicode_len() > 0 {
            params.append("&searchIn=");
            params.append(search_in.as_str());
        }
    }
    proof {
        assert(params@ =~= e2);
    }
    let ghost e3 = e2 + opt_text_param("&sources="@, args.sources);
    if let Some(sources) = &args.sources {
        if sources.as_str().unicode_len() > 0 {
            params.append("&sources=");
            params.append(sources.as_str());
        }
    }
    proof {
        assert(params@ =~= e3);
    }
    let ghost e4 = e3 + opt_text_param("&domains="@, args.domains);
    if let Some(domains) = &args.domains {
        if domains.as_str().unicode_len() > 0 {
            params.append("&domains=");
            params.append(domains.as_str());
        }
    }
    proof {
        assert(params@ =~= e4);
    }
    let ghost e5 = e4 + opt_text_param("&excludeDomains="@, args.exclude_domains);
    if let Some(exclude_domains) = &args.exclude_domains {
        if exclude_domains.as_str().unicode_len() > 0 {
            params.append("&excludeDomains=");
            params.append(exclude_domains.as_str());
        }
    }
    proof {
        assert(params@ =~= e5);
    }
    let ghost e6 = e5 + opt_text_param("&language="@, args.language);
    if let Some(language) = &args.language {
        if language.as_str().unicode_len() > 0 {
            params.append("&language=");
            params.append(language.as_str());
        }
    }
    proof {
        assert(params@ =~= e6);
    }
    let ghost e7 = e6 + opt_text_param("&sortBy="@, args.sort_by);
    if let Some(sort_by) = &args.sort_by {
        if sort_by.as_str().unicode_len() > 0 {
            params.append("&sortBy=");
            params.append(sort_by.as_str());
        }
    }
    proof {
        assert(params@ =~= e7);
    }
    let ghost e8 = e7 + num_param("&pageSize="@, args.number);
    if let Some(number) = &args.number {
        let formatted = u32_dec(*number);
        params.append("&pageSize=");
        params.append(formatted.as_str());
    }
    proof {
        assert(params@ =~= e8);
    }
    let ghost e9 = e8 + num_param("&page="@, args.page);
    if let Some(page) = &args.page {
        let formatted = u32_dec(*page);
        params.append("&page=");
        params.append(formatted.as_str());
    }
    proof {
        assert(params@ =~= e9);
        assert(e9 == params_of(*args));
    }
    params
}

/// Attach the authentication token to a base URL as its first query
/// parameter.
pub fn sign_api_key(url: &str, api_key: &str) -> (r: String)
    ensures
        r@ == url@ + "?apiKey="@ + api_key@,
{
    let mut signed = url.to_owned();
    signed.append("?apiKey=");
    signed.append(api_key);
    proof {
        assert(signed@ =~= url@ + "?apiKey="@ + api_key@);
    }
    signed
}

/// Build the complete request URL for a set of filters and a token.
pub fn generate_url(args: &Args, api_key: &str) -> (r: String)
    ensures
        r@ == url_of(*args, api_key@),
{
    let everything = text_is_present(&args.q) || text_is_present(&args.search_in)
        || text_is_present(&args.domains) || text_is_present(&args.exclude_domains)
        || text_is_present(&args.language) || text_is_present(&args.sort_by)
        || args.number.is_some() || args.page.is_some();
    let base = if everything {
        "https://newsapi.org/v2/everything"
    } else {
        "https://newsapi.org/v2/top-headlines"
    };
    let mut url = sign_api_key(base, api_key);
    let params = build_params(args);
    if params.as_str().unicode_len() == 0 {
        url.append("&q=rust");
    } else {
        url.append(params.as_str());
    }
    proof {
        assert(url@ =~= url_of(*args, api_key@));
    }
    url
}

/// Resolve the credential for this invocation.  A stored key is used as it
/// is; otherwise a freshly entered key is used and flagged for persisting;
/// with neither, the configuration is in error.
pub fn load_api_key(stored: Option<String>, entered: Option<String>) -> (r: Result<
    (String, bool),
    NewsAPIError,
>)
    ensures
        match stored {
            Some(k) => r matches Ok(p) && p.0@ == k@ && p.1 == false,
            None => match entered {
                Some(k) => r matches Ok(p) && p.0@ == k@ && p.1 == true,
                None => r == Err::<(String, bool), NewsAPIError>(NewsAPIError::ConfigurationError),
            },
        },
{
    match stored {
        Some(k) => Ok((k, false)),
        None => match entered {
            Some(k) => Ok((k, true)),
            None => Err(NewsAPIError::ConfigurationError),
        },
    }
}

/// With no filters populated at all, the URL builder selects the top
/// headlines endpoint and appends the fixed fallback query term.
pub proof fn lemma_no_filters_defaults(a: Args, key: Seq<char>)
    requires
        a.q is None,
        a.search_in is None,
        a.sources is None,
        a.domains is None,
        a.exclude_domains is None,
        a.language is None,
        a.sort_by is None,
        a.number is None,
        a.page is None,
    ensures
        url_of(a, key) == "https://newsapi.org/v2/top-headlines"@ + "?apiKey="@ + key + "&q=rust"@,
{
    assert(params_of(a) =~= Seq::<char>::empty());
}

/// With at least one filter besides the plain source list populated, the
/// URL builder selects the everything endpoint.
pub proof fn lemma_filter_selects_everything(a: Args, key: Seq<char>)
    requires
        filter_besides_sources(a),
    ensures
        endpoint_of(a) == "https://newsapi.org/v2/everything"@,
        url_of(a, key).subrange(0, "https://newsapi.org/v2/everything"@.len() as int)
            == "https://newsapi.org/v2/everything"@,
{
    let rest = "?apiKey="@ + key + (if params_of(a).len() == 0 {
        "&q=rust"@
    } else {
        params_of(a)
    });
    assert(url_of(a, key) == endpoint_of(a) + rest);
    assert((endpoint_of(a) + rest).subrange(0, endpoint_of(a).len() as int) =~= endpoint_of(a));
}

} // verus!
