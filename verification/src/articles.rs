//! The response side of the client: from the outcome of one HTTP exchange
//! to a list of articles, or to one terminal error.
//!
//! The response body must be a JSON object holding an `articles` array whose
//! elements each carry a string `title` and a string `url`.  Unknown members
//! are ignored; a missing or mistyped `title` or `url` on any element fails
//! the whole parse.  Nothing here retries: one exchange yields one outcome.

use vstd::prelude::*;
use vstd::string::*;

use crate::error::NewsAPIError;
use crate::json::{
    jv, jv_members, jv_seq, lemma_jv_members, lemma_jv_seq, parse_text, spec_parse_text, JsonV,
    JsonValue,
};
use crate::strutil::str_eq;

verus! {

/// An article: its title and its link.
#[derive(Debug, Clone, PartialEq, Eq)]
pub struct Article {
    pub title: String,
    pub url: String,
}

impl View for Article {
    type V = (Seq<char>, Seq<char>);

    open spec fn view(&self) -> (Seq<char>, Seq<char>) {
        (self.title@, self.url@)
    }
}

/// The articles of one response, in response order.
#[derive(Debug, Clone, PartialEq, Eq)]
pub struct Articles {
    pub articles: Vec<Article>,
}

impl View for Articles {
    type V = Seq<(Seq<char>, Seq<char>)>;

    open spec fn view(&self) -> Seq<(Seq<char>, Seq<char>)> {
        Seq::new(self.articles@.len(), |i: int| self.articles@[i]@)
    }
}

/// The first member with the given name, looking from position `k` on.
pub open spec fn find_member_from(ms: Seq<(Seq<char>, JsonV)>, name: Seq<char>, k: int) -> Option<
    JsonV,
>
    decreases ms.len() - k,
{
    if !(0 <= k < ms.len()) {
        None
    } else if ms[k].0 == name {
        Some(ms[k].1)
    } else {
        find_member_from(ms, name, k + 1)
    }
}

/// The first member with the given name, if any.
pub open spec fn find_member(ms: Seq<(Seq<char>, JsonV)>, name: Seq<char>) -> Option<JsonV> {
    find_member_from(ms, name, 0)
}

/// The title and link of one article object: both must be present and be
/// strings.
pub open spec fn article_of(j: JsonV) -> Option<(Seq<char>, Seq<char>)> {
    match j {
        JsonV::Obj(ms) => match (find_member(ms, "title"@), find_member(ms, "url"@)) {
            (Some(JsonV::Str(t)), Some(JsonV::Str(u))) => Some((t, u)),
            _ => None,
        },
        _ => None,
    }
}

/// The articles of the elements from position `k` on: every element must
/// be an article object.
pub open spec fn articles_from(vs: Seq<JsonV>, k: int) -> Option<Seq<(Seq<char>, Seq<char>)>>
    decreases vs.len() - k,
{
    if !(0 <= k <= vs.len()) {
        None
    } else if k == vs.len() {
        Some(Seq::empty())
    } else {
        match article_of(vs[k]) {
            Some(p) => match articles_from(vs, k + 1) {
                Some(rest) => Some(seq![p] + rest),
                None => None,
            },
            None => None,
        }
    }
}

/// The article list of a response value: an object whose `articles` member
/// is an array of article objects.
pub open spec fn articles_of(j: JsonV) -> Option<Seq<(Seq<char>, Seq<char>)>> {
    match j {
        JsonV::Obj(ms) => match find_member(ms, "articles"@) {
            Some(JsonV::Arr(vs)) => articles_from(vs, 0),
            _ => None,
        },
        _ => None,
    }
}

/// What parsing a response body yields: the article list, or nothing when
/// the body is not JSON of the expected shape.
pub open spec fn spec_parse_articles(s: Seq<char>) -> Option<Seq<(Seq<char>, Seq<char>)>> {
    match spec_parse_text(s) {
        Some(j) => articles_of(j),
        None => None,
    }
}

/// Find the first member with the given name.
fn find_member_x<'a>(ms: &'a Vec<(String, JsonValue)>, name: &str) -> (r: Option<&'a JsonValue>)
    ensures
        match r {
            Some(v) => find_member(jv_members(ms@), name@) == Some(jv(*v)),
            None => find_member(jv_members(ms@), name@) is None,
        },
{
    proof {
        lemma_jv_members(ms@);
    }
    let ghost msv = jv_members(ms@);
    let mut k: usize = 0;
    while k < ms.len()
        invariant
            0 <= k <= ms@.len(),
            msv == jv_members(ms@),
            msv.len() == ms@.len(),
            forall|t: int| 0 <= t < ms@.len() ==> msv[t] == (ms@[t].0@, jv(ms@[t].1)),
            find_member_from(msv, name@, 0) == find_member_from(msv, name@, k as int),
        decreases ms@.len() - k,
    {
        if str_eq(ms[k].0.as_str(), name) {
            proof {
                assert(find_member_from(msv, name@, k as int) == Some(jv(ms@[k as int].1)));
            }
            return Some(&ms[k].1);
        }
        k = k + 1;
    }
    None
}

/// Read one element of the `articles` array.
fn article_x(v: &JsonValue) -> (r: Option<Article>)
    ensures
        match r {
            Some(a) => article_of(jv(*v)) == Some(a@),
            None => article_of(jv(*v)) is None,
        },
{
    match v {
        JsonValue::Obj(ms) => {
            let t = find_member_x(ms, "title");
            let u = find_member_x(ms, "url");
            match (t, u) {
                (Some(JsonValue::Str(ts)), Some(JsonValue::Str(us))) => Some(
                    Article { title: ts.clone(), url: us.clone() },
                ),
                _ => None,
            }
        },
        _ => None,
    }
}

/// Parse a response body into its article list.  Fails with
/// `ArticleParseFailed` exactly when the body is not a JSON object holding
/// an `articles` array of objects with string `title` and `url` members.
#[verifier::loop_isolation(false)]
pub fn parse_articles(body: &str) -> (r: Result<Articles, NewsAPIError>)
    ensures
        match r {
            Ok(a) => spec_parse_articles(body@) == Some(a@),
            Err(e) => e == NewsAPIError::ArticleParseFailed && spec_parse_articles(body@)
                is None,
        },
{
    let parsed = match parse_text(body) {
        Some(v) => v,
        None => {
            return Err(NewsAPIError::ArticleParseFailed);
        },
    };
    match &parsed {
        JsonValue::Obj(ms) => {
            match find_member_x(ms, "articles") {
                Some(arr) => match arr {
                    JsonValue::Arr(vs) => {
                        proof {
                            lemma_jv_seq(vs@);
                        }
                        let ghost vsv = jv_seq(vs@);
                        let mut out: Vec<Article> = Vec::new();
                        let mut k: usize = 0;
                        proof {
                            match articles_from(vsv, 0) {
                                Some(rest) => {
                                    assert(Seq::new(out@.len(), |i: int| out@[i]@) + rest =~= rest);
                                },
                                None => {},
                            }
                        }
                        while k < vs.len()
                            invariant
                                0 <= k <= vs@.len(),
                                vsv == jv_seq(vs@),
                                vsv.len() == vs@.len(),
                                forall|t: int| 0 <= t < vs@.len() ==> vsv[t] == jv(vs@[t]),
                                match articles_from(vsv, k as int) {
                                    Some(rest) => articles_from(vsv, 0) == Some(
                                        Seq::new(out@.len(), |i: int| out@[i]@) + rest,
                                    ),
                                    None => articles_from(vsv, 0) is None,
                                },
                            decreases vs@.len() - k,
                        {
                            let ghost prev = Seq::new(out@.len(), |i: int| out@[i]@);
                            match article_x(&vs[k]) {
                                Some(a) => {
                                    let ghost av = a@;
                                    out.push(a);
                                    proof {
                                        assert(Seq::new(out@.len(), |i: int| out@[i]@) =~= prev
                                            + seq![av]);
                                        match articles_from(vsv, k + 1int) {
                                            Some(rest) => {
                                                assert(articles_from(vsv, k as int) == Some(
                                                    seq![av] + rest,
                                                ));
                                                assert(prev + (seq![av] + rest) =~= (prev
                                                    + seq![av]) + rest);
                                            },
                                            None => {
                                                assert(articles_from(vsv, k as int) is None);
                                            },
                                        }
                                    }
                                },
                                None => {
                                    proof {
                                        assert(articles_from(vsv, k as int) is None);
                                    }
                                    return Err(NewsAPIError::ArticleParseFailed);
                                },
                            }
                            k = k + 1;
                        }
                        let result = Articles { articles: out };
                        proof {
                            assert(articles_from(vsv, k as int) == Some(
                                Seq::<(Seq<char>, Seq<char>)>::empty(),
                            ));
                            assert(result@ + Seq::<(Seq<char>, Seq<char>)>::empty() =~= result@);
                        }
                        Ok(result)
                    },
                    _ => Err(NewsAPIError::ArticleParseFailed),
                },
                None => Err(NewsAPIError::ArticleParseFailed),
            }
        },
        _ => Err(NewsAPIError::ArticleParseFailed),
    }
}

/// What one HTTP exchange produced, as the calling program saw it.
pub enum FetchEvent {
    /// The request failed in the transport before any response arrived.
    TransportFailed,
    /// The transport reported a response with a non-success status.
    HttpStatus(u16),
    /// A success response arrived but its body was not decodable text.
    BodyUndecodable,
    /// A success response arrived with this body text.
    Body(String),
}

/// The outcome that one exchange determines: a transport failure or an
/// error status is `RequestFailed`, an undecodable body is
/// `ResponseDecodeFailed`, and a body is parsed into its article list or
/// fails with `ArticleParseFailed`.
pub open spec fn spec_interpret(e: FetchEvent) -> Result<
    Seq<(Seq<char>, Seq<char>)>,
    NewsAPIError,
> {
    match e {
        FetchEvent::TransportFailed => Err(NewsAPIError::RequestFailed),
        FetchEvent::HttpStatus(_) => Err(NewsAPIError::RequestFailed),
        FetchEvent::BodyUndecodable => Err(NewsAPIError::ResponseDecodeFailed),
        FetchEvent::Body(s) => match spec_parse_articles(s@) {
            Some(l) => Ok(l),
            None => Err(NewsAPIError::ArticleParseFailed),
        },
    }
}

/// Turn the outcome of one HTTP exchange into articles or one terminal
/// error.  The function is called once per exchange and decides the whole
/// invocation: no retry follows any failure.
pub fn interpret_response(e: FetchEvent) -> (r: Result<Articles, NewsAPIError>)
    ensures
        match r {
            Ok(a) => spec_interpret(e) == Ok::<Seq<(Seq<char>, Seq<char>)>, NewsAPIError>(a@),
            Err(err) => spec_interpret(e) == Err::<Seq<(Seq<char>, Seq<char>)>, NewsAPIError>(err),
        },
{
    match e {
        FetchEvent::TransportFailed => Err(NewsAPIError::RequestFailed),
        FetchEvent::HttpStatus(_) => Err(NewsAPIError::RequestFailed),
        FetchEvent::BodyUndecodable => Err(NewsAPIError::ResponseDecodeFailed),
        FetchEvent::Body(s) => parse_articles(s.as_str()),
    }
}

/// A response with a non-success status fails with `RequestFailed`, and
/// with nothing else: one exchange yields one final outcome, so no retry
/// can follow.
pub proof fn lemma_non_success_fails(status: u16)
    requires
        !(200 <= status < 300),
    ensures
        spec_interpret(FetchEvent::HttpStatus(status)) == Err::<
            Seq<(Seq<char>, Seq<char>)>,
            NewsAPIError,
        >(NewsAPIError::RequestFailed),
{
}

/// The lines that rendering writes: for each article in encounter order,
/// its title line and its link line.
pub fn render_lines(arts: &Articles) -> (r: Vec<String>)
    ensures
        r@.len() == 2 * arts.articles@.len(),
        forall|k: int|
            0 <= k < arts.articles@.len() ==> r@[2 * k]@ == arts.articles@[k].title@ && r@[2 * k
                + 1]@ == arts.articles@[k].url@,
{
    let mut r: Vec<String> = Vec::new();
    let mut k: usize = 0;
    while k < arts.articles.len()
        invariant
            0 <= k <= arts.articles@.len(),
            r@.len() == 2 * k,
            forall|t: int|
                0 <= t < k ==> r@[2 * t]@ == arts.articles@[t].title@ && r@[2 * t + 1]@
                    == arts.articles@[t].url@,
        decreases arts.articles@.len() - k,
    {
        r.push(arts.articles[k].title.clone());
        r.push(arts.articles[k].url.clone());
        k = k + 1;
    }
    r
}

} // verus!
