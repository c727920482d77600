//! The site that is queried, and its settings.
use crate::decode::{decode, parsed_text};
use crate::error::{Failure, WikiError};
use crate::http::HttpClient;
use crate::json::{text_view, Json, Tree};
use crate::page::{Handle, Page};
use crate::query::{pair, pairs, IterElems, Pairs};
use crate::reply::{languages_of, list_strings, list_view, listing, pairs_view, read_languages};
use crate::text::{
    chars_of, decimal, decimal_string, find, first_occurrence, lemma_occurrence_bounds,
};
use vstd::prelude::*;
use vstd::string::*;

verus! {

/// What comes back for one request: a document, or the failure to get one.
pub ghost enum Reply {
    Document(Tree),
    Failed(Failure),
}

/// The reply that the outcome of a request stands for.
pub open spec fn reply_of(r: Result<Json, WikiError>) -> Reply {
    match r {
        Ok(q) => Reply::Document(q@),
        Err(e) => Reply::Failed(e@),
    }
}

/// The titles that a reply lists under `query`, in the array `inner`.
pub open spec fn listed(reply: Reply, inner: Seq<char>) -> Result<Seq<Seq<char>>, Failure> {
    match reply {
        Reply::Failed(f) => Err(f),
        Reply::Document(q) => listing(q, "query"@, inner, "title"@),
    }
}

/// The request for the titles that match a search.
pub open spec fn search_request(results: nat, query: Seq<char>) -> Pairs {
    seq![
        ("list"@, "search"@),
        ("srprop"@, ""@),
        ("srlimit"@, decimal(results)),
        ("srsearch"@, query),
        ("format"@, "json"@),
        ("action"@, "query"@),
    ]
}

/// The request for the titles of the articles around a place.
pub open spec fn geosearch_request(
    results: nat,
    latitude: Seq<char>,
    longitude: Seq<char>,
    radius: nat,
) -> Pairs {
    seq![
        ("list"@, "geosearch"@),
        ("gsradius"@, decimal(radius)),
        ("gscoord"@, latitude + "|"@ + longitude),
        ("gslimit"@, decimal(results)),
        ("format"@, "json"@),
        ("action"@, "query"@),
    ]
}

/// The request for the titles of `count` random articles.
pub open spec fn random_request(count: nat) -> Pairs {
    seq![
        ("list"@, "random"@),
        ("rnnamespace"@, "0"@),
        ("rnlimit"@, decimal(count)),
        ("format"@, "json"@),
        ("action"@, "query"@),
    ]
}

/// The request for the languages of the site.
pub open spec fn languages_request() -> Pairs {
    seq![
        ("meta"@, "siteinfo"@),
        ("siprop"@, "languages"@),
        ("format"@, "json"@),
        ("action"@, "query"@),
    ]
}

/// The languages that a reply lists.
pub open spec fn languages_listed(reply: Reply) -> Result<Pairs, Failure> {
    match reply {
        Reply::Failed(f) => Err(f),
        Reply::Document(q) => languages_of(q),
    }
}

/// The place in a URL format that the language is put in.
pub open spec fn language_marker() -> Seq<char> {
    "{language}"@
}

/// The request for the titles that match `query`, `results` of them at most.
pub fn search_params(results: u32, query: &str) -> (params: IterElems)
    ensures
        pairs(params@) == search_request(results as nat, query@),
{
    let limit = decimal_string(results as u64);
    let mut params: IterElems = Vec::new();
    params.push(pair("list", "search"));
    params.push(pair("srprop", ""));
    params.push(pair("srlimit", limit.as_str()));
    params.push(pair("srsearch", query));
    params.push(pair("format", "json"));
    params.push(pair("action", "query"));
    assert(pairs(params@) =~= search_request(results as nat, query@));
    params
}

/// The request for the titles of the articles within `radius` meters of a
/// place, `results` of them at most.
pub fn geosearch_params(results: u32, latitude: &str, longitude: &str, radius: u16) -> (params:
    IterElems)
    ensures
        pairs(params@) == geosearch_request(results as nat, latitude@, longitude@, radius as nat),
{
    let limit = decimal_string(results as u64);
    let meters = decimal_string(radius as u64);
    let mut place = latitude.to_owned();
    place.append("|");
    place.append(longitude);
    let mut params: IterElems = Vec::new();
    params.push(pair("list", "geosearch"));
    params.push(pair("gsradius", meters.as_str()));
    params.push(pair("gscoord", place.as_str()));
    params.push(pair("gslimit", limit.as_str()));
    params.push(pair("format", "json"));
    params.push(pair("action", "query"));
    assert(pairs(params@) =~= geosearch_request(
        results as nat,
        latitude@,
        longitude@,
        radius as nat,
    ));
    params
}

/// The request for the titles of `count` random articles.
pub fn random_params(count: u8) -> (params: IterElems)
    ensures
        pairs(params@) == random_request(count as nat),
{
    let limit = decimal_string(count as u64);
    let mut params: IterElems = Vec::new();
    params.push(pair("list", "random"));
    params.push(pair("rnnamespace", "0"));
    params.push(pair("rnlimit", limit.as_str()));
    params.push(pair("format", "json"));
    params.push(pair("action", "query"));
    assert(pairs(params@) =~= random_request(count as nat));
    params
}

/// The request for the languages of the site.
pub fn languages_params() -> (params: IterElems)
    ensures
        pairs(params@) == languages_request(),
{
    let mut params: IterElems = Vec::new();
    params.push(pair("meta", "siteinfo"));
    params.push(pair("siprop", "languages"));
    params.push(pair("format", "json"));
    params.push(pair("action", "query"));
    assert(pairs(params@) =~= languages_request());
    params
}

/// Whether `radius`, in meters, is one that a search around a place takes.
pub fn radius_in_range(radius: u16) -> (b: bool)
    ensures
        b == (10 <= radius <= 10000),
{
    10 <= radius && radius <= 10000
}

/// The reply that the answer of a transport stands for: the document that
/// its body reads as, a `JSONError` where the body is no JSON, and an
/// `HTTPError` where the transport failed, whatever it reports.
pub open spec fn reply_to(answer: Result<String, WikiError>) -> Reply {
    match answer {
        Ok(body) => match parsed_text(body@) {
            Some(q) => Reply::Document(q),
            None => Reply::Failed(Failure::Json),
        },
        Err(_) => Reply::Failed(Failure::Http),
    }
}

/// Reads the answer of a transport.
pub fn read_answer(answer: Result<String, WikiError>) -> (r: Result<Json, WikiError>)
    ensures
        reply_of(r) == reply_to(answer),
{
    match answer {
        Ok(body) => decode(body.as_str()),
        Err(_) => Err(WikiError::HTTPError),
    }
}

/// A site, the settings for its queries, and the transport to reach it.
#[derive(Debug)]
pub struct Wikipedia<A: HttpClient> {
    /// The transport.
    pub client: A,
    /// The URL is `pre_language_url` + `language` + `post_language_url`.
    pub pre_language_url: String,
    pub post_language_url: String,
    pub language: String,
    /// Number of results to fetch when searching.
    pub search_results: u32,
    /// Number of images to fetch in each request. It can be the string "max"
    /// to fetch as many as possible on every request.
    pub images_results: String,
    /// Like `images_results`, for links and references.
    pub links_results: String,
    /// Like `images_results`, for categories.
    pub categories_results: String,
}

impl<A: HttpClient> Wikipedia<A> {
    /// The URL of the API, as characters.
    pub open spec fn url(&self) -> Seq<char> {
        self.pre_language_url@ + self.language@ + self.post_language_url@
    }

    /// Whether `reply` is what this site gives to `request`: the reading of
    /// an answer that the transport gives to the request for exactly these
    /// parameters at the URL of the API. Such a reply is a document, a
    /// failed exchange, or a body that is no JSON.
    pub open spec fn gives(&self, request: Pairs, reply: Reply) -> bool {
        exists|answer: Result<String, WikiError>|
            #[trigger] self.client.answers(self.url(), request, answer) && reply == reply_to(
                answer,
            )
    }

    /// A site with the default settings: the English Wikipedia, ten search
    /// results, and as many items in a page of results as the server gives.
    pub fn new(client: A) -> (w: Self)
        ensures
            w.pre_language_url@ == "https://"@,
            w.post_language_url@ == ".wikipedia.org/w/api.php"@,
            w.language@ == "en"@,
            w.search_results == 10,
            w.images_results@ == "max"@,
            w.links_results@ == "max"@,
            w.categories_results@ == "max"@,
    {
        let mut client = client;
        client.user_agent("wikipedia (https://github.com/seppo0010/wikipedia-rs)".to_owned());
        Wikipedia {
            client,
            pre_language_url: "https://".to_owned(),
            post_language_url: ".wikipedia.org/w/api.php".to_owned(),
            language: "en".to_owned(),
            search_results: 10,
            images_results: "max".to_owned(),
            links_results: "max".to_owned(),
            categories_results: "max".to_owned(),
        }
    }

    /// The URL of the API.
    pub fn base_url(&self) -> (url: String)
        ensures
            url@ == self.url(),
    {
        let mut url = self.pre_language_url.clone();
        url.append(self.language.as_str());
        url.append(self.post_language_url.as_str());
        url
    }

    /// Updates the URL format. Where `base_url` holds `{language}`, what
    /// stands before the first one and what stands behind it enclose the
    /// language that is set. Else `base_url` is the whole URL, and the
    /// language is empty.
    pub fn set_base_url(&mut self, base_url: &str)
        ensures
            match first_occurrence(base_url@, language_marker(), 0) {
                Some(at) => {
                    &&& final(self).pre_language_url@ == base_url@.subrange(0, at)
                    &&& final(self).post_language_url@ == base_url@.subrange(
                        at + language_marker().len(),
                        base_url@.len() as int,
                    )
                    &&& final(self).language == old(self).language
                },
                None => {
                    &&& final(self).pre_language_url@ == base_url@
                    &&& final(self).post_language_url@ == Seq::<char>::empty()
                    &&& final(self).language@ == Seq::<char>::empty()
                },
            },
            final(self).client == old(self).client,
            final(self).search_results == old(self).search_results,
            final(self).images_results == old(self).images_results,
            final(self).links_results == old(self).links_results,
            final(self).categories_results == old(self).categories_results,
    {
        let hay = chars_of(base_url);
        let marker = chars_of("{language}");
        let size = hay.len();
        proof {
            lemma_occurrence_bounds(hay@, marker@, 0);
        }
        match find(&hay, &marker, 0) {
            Some(at) => {
                self.pre_language_url = base_url.substring_char(0, at).to_owned();
                self.post_language_url = base_url.substring_char(
                    at + marker.len(),
                    size,
                ).to_owned();
            },
            None => {
                self.pre_language_url = base_url.to_owned();
                self.language = String::new();
                self.post_language_url = String::new();
            },
        }
    }

    /// The titles that a response lists under `query`, in the array
    /// `query_field`.
    pub fn results(data: &Json, query_field: &str) -> (r: Result<Vec<String>, WikiError>)
        ensures
            list_view(r) == listing(data@, "query"@, query_field@, "title"@),
    {
        list_strings(data, "query", query_field, "title")
    }

    fn titles(&self, params: &IterElems, query_field: &str) -> (r: Result<Vec<String>, WikiError>)
        ensures
            exists|reply: Reply|
                self.gives(pairs(params@), reply) && list_view(r) == #[trigger] listed(
                    reply,
                    query_field@,
                ),
    {
        let answer = self.query(params);
        let ghost reply = reply_of(answer);
        let r = match answer {
            Ok(q) => Self::results(&q, query_field),
            Err(e) => Err(e),
        };
        proof {
            assert(self.gives(pairs(params@), reply) && list_view(r) == listed(
                reply,
                query_field@,
            ));
        }
        r
    }

    /// Searches for a string and returns a list of relevant page titles:
    /// those that the site lists in its reply to the search request.
    pub fn search(&self, query: &str) -> (r: Result<Vec<String>, WikiError>)
        ensures
            exists|reply: Reply|
                self.gives(search_request(self.search_results as nat, query@), reply) && list_view(
                    r,
                ) == #[trigger] listed(reply, "search"@),
    {
        let params = search_params(self.search_results, query);
        self.titles(&params, "search")
    }

    /// Searches articles within `radius` meters of a place, whose latitude
    /// and longitude are given as decimal texts. A radius under 10 or over
    /// 10000 is refused, and nothing is sent.
    pub fn geosearch(&self, latitude: &str, longitude: &str, radius: u16) -> (r: Result<
        Vec<String>,
        WikiError,
    >)
        ensures
            !(10 <= radius <= 10000) ==> r is Err && r->Err_0@ == Failure::InvalidParameter(
                "radius"@,
            ),
            10 <= radius <= 10000 ==> exists|reply: Reply|
                self.gives(
                    geosearch_request(
                        self.search_results as nat,
                        latitude@,
                        longitude@,
                        radius as nat,
                    ),
                    reply,
                ) && list_view(r) == #[trigger] listed(reply, "geosearch"@),
    {
        if !radius_in_range(radius) {
            return Err(WikiError::InvalidParameter("radius".to_owned()));
        }
        let params = geosearch_params(self.search_results, latitude, longitude, radius);
        self.titles(&params, "geosearch")
    }

    /// Fetches `count` random articles' title: the titles that the site
    /// lists in its reply to the request for them.
    pub fn random_count(&self, count: u8) -> (r: Result<Vec<String>, WikiError>)
        ensures
            exists|reply: Reply|
                self.gives(random_request(count as nat), reply) && list_view(r)
                    == #[trigger] listed(reply, "random"@),
    {
        let params = random_params(count);
        self.titles(&params, "random")
    }

    /// Fetches a random article's title: the first that the server lists,
    /// if it lists one.
    pub fn random(&self) -> (r: Result<Option<String>, WikiError>)
        ensures
            exists|reply: Reply|
                self.gives(random_request(1), reply) && match #[trigger] listed(reply, "random"@) {
                    Ok(titles) => r is Ok && text_view(r->Ok_0) == (if titles.len() > 0 {
                        Some(titles[0])
                    } else {
                        None
                    }),
                    Err(f) => r is Err && r->Err_0@ == f,
                },
    {
        let answer = self.random_count(1);
        let ghost reply = choose|reply: Reply|
            self.gives(random_request(1), reply) && list_view(answer) == #[trigger] listed(
                reply,
                "random"@,
            );
        let r = match answer {
            Ok(list) => {
                let mut list = list;
                if list.len() > 0 {
                    Ok(Some(list.swap_remove(0)))
                } else {
                    Ok(None)
                }
            },
            Err(e) => Err(e),
        };
        proof {
            assert(self.gives(random_request(1), reply) && match listed(reply, "random"@) {
                Ok(titles) => r is Ok && text_view(r->Ok_0) == (if titles.len() > 0 {
                    Some(titles[0])
                } else {
                    None
                }),
                Err(f) => r is Err && r->Err_0@ == f,
            });
        }
        r
    }

    /// Returns a list of languages in the form of (`identifier`,
    /// `language`), for example [("en", "English"), ("es", "Español")].
    pub fn get_languages(&self) -> (r: Result<IterElems, WikiError>)
        ensures
            exists|reply: Reply|
                self.gives(languages_request(), reply) && pairs_view(r)
                    == #[trigger] languages_listed(reply),
    {
        let params = languages_params();
        let answer = self.query(&params);
        let ghost reply = reply_of(answer);
        let r = match answer {
            Ok(q) => read_languages(&q),
            Err(e) => Err(e),
        };
        proof {
            assert(self.gives(languages_request(), reply) && pairs_view(r) == languages_listed(
                reply,
            ));
        }
        r
    }

    /// Creates a new `Page` given a `title`.
    pub fn page_from_title(&self, title: String) -> (page: Page<'_, A>)
        ensures
            page.handle() == Handle::Title(title@),
            page.site() == self,
    {
        Page::from_title(self, title)
    }

    /// Creates a new `Page` given a `pageid`.
    pub fn page_from_pageid(&self, pageid: String) -> (page: Page<'_, A>)
        ensures
            page.handle() == Handle::PageId(pageid@),
            page.site() == self,
    {
        Page::from_pageid(self, pageid)
    }

    /// Sends one request with the parameters `args` to the URL of the API
    /// and reads what the transport hands back: the result is the reading of
    /// an answer that the transport gives to exactly this request.
    pub fn query(&self, args: &IterElems) -> (r: Result<Json, WikiError>)
        ensures
            self.gives(pairs(args@), reply_of(r)),
    {
        let url = self.base_url();
        let answer = self.client.get(url.as_str(), args);
        let ghost given = answer;
        let r = read_answer(answer);
        proof {
            assert(self.client.answers(self.url(), pairs(args@), given) && reply_of(r) == reply_to(
                given,
            ));
        }
        r
    }
}

impl<A: HttpClient + Default> Default for Wikipedia<A> {
    /// A site with the default settings and the default transport.
    fn default() -> (w: Self)
        ensures
            w.pre_language_url@ == "https://"@,
            w.post_language_url@ == ".wikipedia.org/w/api.php"@,
            w.language@ == "en"@,
            w.search_results == 10,
            w.images_results@ == "max"@,
            w.links_results@ == "max"@,
            w.categories_results@ == "max"@,
    {
        Wikipedia::new(A::default())
    }
}

impl<A: HttpClient + Clone> Clone for Wikipedia<A> {
    /// A copy with the same settings, and a copy of the transport.
    fn clone(&self) -> (w: Self)
        ensures
            w.pre_language_url@ == self.pre_language_url@,
            w.post_language_url@ == self.post_language_url@,
            w.language@ == self.language@,
            w.search_results == self.search_results,
            w.images_results@ == self.images_results@,
            w.links_results@ == self.links_results@,
            w.categories_results@ == self.categories_results@,
    {
        Wikipedia {
            client: self.client.clone(),
            pre_language_url: self.pre_language_url.clone(),
            post_language_url: self.post_language_url.clone(),
            language: self.language.clone(),
            search_results: self.search_results,
            images_results: self.images_results.clone(),
            links_results: self.links_results.clone(),
            categories_results: self.categories_results.clone(),
        }
    }
}

} // verus!
