//! The transport that requests go through.
use crate::error::{Failure, WikiError};
use crate::query::{pair, pairs, IterElems, Pairs};
use vstd::prelude::*;
use vstd::string::*;
use vstd::utf8::encode_utf8;

verus! {

/// A transport: whatever can send one request and hand back the body of the
/// response. Nothing is promised of what a transport answers; all that is
/// read from an answer is checked when it is read.
pub trait HttpClient {
    /// Whether `answer` is one that this transport may give to the request
    /// for `args` at `base_url`. Unless a transport says otherwise, it may
    /// give any answer to any request.
    open spec fn answers(
        &self,
        base_url: Seq<char>,
        args: Pairs,
        answer: Result<String, WikiError>,
    ) -> bool {
        true
    }

    /// Sets the user agent.
    fn user_agent(&mut self, user_agent: String);

    /// Sets a Wikimedia Personal API authentication token.
    fn bearer_token(&mut self, bearer_token: String);

    /// Sends one request to `base_url` with the parameters `args`, and
    /// returns the body of the response.
    fn get(&self, base_url: &str, args: &IterElems) -> (answer: Result<String, WikiError>)
        ensures
            self.answers(base_url@, pairs(args@), answer),
    ;
}

/// The error that `url` reports for a text that is no absolute URL.
#[verifier::external_type_specification]
#[verifier::external_body]
pub struct ExParseError(url::ParseError);

/// The URL that `url::Url::parse_with_params` composes from a base and the
/// parameters of a query, or `None` where it reports an error.
pub uninterp spec fn composed_url(base: Seq<char>, params: Pairs) -> Option<Seq<char>>;

/// The URL that `url::Url::parse` makes of a text, or `None` where it
/// reports an error.
pub uninterp spec fn parsed_url(base: Seq<char>) -> Option<Seq<char>>;

/// The most bytes that a URL may have: what `url` can count in 32 bits.
pub const MAX_URL_BYTES: usize = 4294967295;

/// The number of bytes that a text takes.
pub open spec fn bytes_of(text: Seq<char>) -> nat {
    encode_utf8(text).len()
}

/// The most bytes that `params` can add to a URL: three for each byte of a
/// name or a value, which is what an escaped byte takes, and two for the
/// signs that go with each pair.
pub open spec fn weight(params: Pairs) -> nat
    decreases params.len(),
{
    if params.len() == 0 {
        0
    } else {
        weight(params.drop_last()) + 3 * bytes_of(params.last().0) + 3 * bytes_of(
            params.last().1,
        ) + 2
    }
}

/// Whether a base URL and the parameters of a request are within the size
/// that is composed: the base is a URL, and its bytes, the sign that opens
/// the query and the most that the parameters can add are no more than a
/// URL may have.
pub open spec fn within_size(base: Seq<char>, params: Pairs) -> bool {
    match parsed_url(base) {
        Some(url) => bytes_of(url) + 1 + weight(params) <= MAX_URL_BYTES,
        None => false,
    }
}

/// `url::Url::parse`, with the URL handed out as a string. The contract
/// names the outcome: the same text always parses to the same URL, or
/// always fails.
#[verifier::external_body]
fn parse_url(base_url: &str) -> (r: Result<String, url::ParseError>)
    ensures
        match r {
            Ok(u) => parsed_url(base_url@) == Some(u@),
            Err(_) => parsed_url(base_url@) is None,
        },
{
    match url::Url::parse(base_url) {
        Ok(u) => Ok(String::from(u)),
        Err(e) => Err(e),
    }
}

/// `url::Url::parse_with_params`, with the URL handed out as a string. The
/// contract names the outcome: the same base and parameters always compose
/// to the same URL, or always fail. The call parses the base as
/// `url::Url::parse` does and panics where the URL outgrows 32 bits while
/// the pairs are added; each byte of a pair adds three bytes at most, and
/// each pair two signs. Those inputs are left out.
#[verifier::external_body]
fn compose_url(base_url: &str, args: &IterElems) -> (r: Result<String, url::ParseError>)
    requires
        within_size(base_url@, pairs(args@)),
    ensures
        match r {
            Ok(u) => composed_url(base_url@, pairs(args@)) == Some(u@),
            Err(_) => composed_url(base_url@, pairs(args@)) is None,
        },
{
    match url::Url::parse_with_params(base_url, args.iter()) {
        Ok(u) => Ok(String::from(u)),
        Err(e) => Err(e),
    }
}

/// The bytes of the first `n` parameters are among those of all of them.
pub proof fn lemma_weight_grows(params: Pairs, n: int)
    requires
        0 <= n <= params.len(),
    ensures
        weight(params.take(n)) <= weight(params),
    decreases params.len() - n,
{
    if n < params.len() {
        lemma_weight_grows(params, n + 1);
        assert(params.take(n + 1).drop_last() =~= params.take(n));
    } else {
        assert(params.take(n) =~= params);
    }
}

/// Whether `args` can add no more than `room` bytes to a URL.
pub fn room_for(args: &IterElems, room: usize) -> (b: bool)
    ensures
        b == (weight(pairs(args@)) <= room),
{
    let mut left: usize = room;
    let mut i: usize = 0;
    proof {
        assert(pairs(args@).take(0) =~= Seq::<(Seq<char>, Seq<char>)>::empty());
    }
    while i < args.len()
        invariant
            i <= args.len(),
            left + weight(pairs(args@).take(i as int)) == room,
        decreases args.len() - i,
    {
        let name = args[i].0.as_str().as_bytes().len();
        let value = args[i].1.as_str().as_bytes().len();
        proof {
            assert(name == bytes_of(pairs(args@)[i as int].0));
            assert(value == bytes_of(pairs(args@)[i as int].1));
            let upto = pairs(args@).take(i + 1);
            assert(upto.drop_last() =~= pairs(args@).take(i as int));
            assert(upto.last() == pairs(args@)[i as int]);
            lemma_weight_grows(pairs(args@), i + 1);
        }
        if left < 2 {
            return false;
        }
        left -= 2;
        if name > left / 3 {
            return false;
        }
        left -= 3 * name;
        if value > left / 3 {
            return false;
        }
        left -= 3 * value;
        i += 1;
    }
    proof {
        assert(pairs(args@).take(args@.len() as int) =~= pairs(args@));
    }
    true
}

/// One request, ready to be sent: the URL with its query, and the headers.
#[derive(Debug)]
pub struct Request {
    pub url: String,
    pub headers: IterElems,
}

/// The headers that a request carries: the user agent and, where a token is
/// set, the authorization by it.
pub open spec fn headers_of(agent: Seq<char>, bearer: Option<Seq<char>>) -> Pairs {
    match bearer {
        Some(t) => seq![("User-Agent"@, agent), ("Authorization"@, "Bearer "@ + t)],
        None => seq![("User-Agent"@, agent)],
    }
}

/// The settings of the default transport.
#[derive(Debug)]
pub struct Client {
    user_agent: String,
    bearer_token: Option<String>,
}

impl Default for Client {
    /// The settings of a transport that names this library as its user
    /// agent and has no token.
    fn default() -> (c: Client)
        ensures
            c.agent() == "wikipedia (https://github.com/seppo0010/wikipedia-rs)"@,
            c.bearer() is None,
    {
        Client {
            user_agent: "wikipedia (https://github.com/seppo0010/wikipedia-rs)".to_owned(),
            bearer_token: None,
        }
    }
}

impl Client {
    /// The user agent that is set.
    pub closed spec fn agent(&self) -> Seq<char> {
        self.user_agent@
    }

    /// The token that is set, if one is.
    pub closed spec fn bearer(&self) -> Option<Seq<char>> {
        match self.bearer_token {
            Some(t) => Some(t@),
            None => None,
        }
    }

    /// Sets the user agent.
    pub fn user_agent(&mut self, user_agent: String)
        ensures
            final(self).agent() == user_agent@,
            final(self).bearer() == old(self).bearer(),
    {
        self.user_agent = user_agent;
    }

    /// Sets a Wikimedia Personal API authentication token.
    pub fn bearer_token(&mut self, bearer_token: String)
        ensures
            final(self).bearer() == Some(bearer_token@),
            final(self).agent() == old(self).agent(),
    {
        self.bearer_token = Some(bearer_token);
    }

    /// Whether `base_url` and `args` are within the size that is composed.
    pub fn fits(base_url: &str, args: &IterElems) -> (b: bool)
        ensures
            b == within_size(base_url@, pairs(args@)),
    {
        match parse_url(base_url) {
            Ok(url) => {
                let size = url.as_str().as_bytes().len();
                assert(size == bytes_of(url@));
                size < MAX_URL_BYTES && room_for(args, MAX_URL_BYTES - size - 1)
            },
            Err(_) => false,
        }
    }

    /// Prepares the request for `args` at `base_url`: the URL that the base
    /// and the parameters compose to, and the headers of this transport.
    /// A base that is no URL, and a request that could outgrow what a URL
    /// may have, is an `HTTPError`.
    pub fn request(&self, base_url: &str, args: &IterElems) -> (r: Result<Request, WikiError>)
        ensures
            match r {
                Ok(request) => {
                    &&& within_size(base_url@, pairs(args@))
                    &&& composed_url(base_url@, pairs(args@)) == Some(request.url@)
                    &&& pairs(request.headers@) == headers_of(self.agent(), self.bearer())
                },
                Err(e) => {
                    &&& e@ == Failure::Http
                    &&& !within_size(base_url@, pairs(args@)) || composed_url(
                        base_url@,
                        pairs(args@),
                    ) is None
                },
            },
    {
        if !Self::fits(base_url, args) {
            return Err(WikiError::HTTPError);
        }
        let url = match compose_url(base_url, args) {
            Ok(url) => url,
            Err(_) => {
                return Err(WikiError::HTTPError);
            },
        };
        let mut headers: IterElems = Vec::new();
        headers.push(pair("User-Agent", self.user_agent.as_str()));
        match &self.bearer_token {
            Some(t) => {
                let mut value = "Bearer ".to_owned();
                value.append(t.as_str());
                headers.push(pair("Authorization", value.as_str()));
            },
            None => {},
        }
        assert(pairs(headers@) =~= headers_of(self.agent(), self.bearer()));
        Ok(Request { url, headers })
    }
}

} // verus!
