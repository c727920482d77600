//! Pages, the handle by which a page is addressed, and the operations on a
//! page that follow redirects.
use crate::error::{Failure, WikiError};
use crate::http::HttpClient;
use crate::json::{field, head, text_of, text_view, Json, Tree};
use crate::iter::{Category, Cursor, Image, Iter, LangLink, Link, Reference};
use crate::query::{
    operation_params, pair, pairs, resource_params, token, IterElems, Operation, Pairs, Resource,
};
use crate::reply::{
    coordinates_of, coordinates_view, extract_of, first_page, first_page_key, html_of,
    list_strings, list_view, listing, page_of, page_view, pageid_of, read_coordinates, read_page,
    redirect, redirect_target, required, title_of, WikiResponse,
};
use crate::text::{section_of, section_text};
use crate::wiki::{reply_of, Reply, Wikipedia};
use vstd::prelude::*;

verus! {

/// The handle of a page: its title or its numeric identifier.
#[derive(Debug)]
pub enum TitlePageId {
    Title(String),
    PageId(String),
}

/// The value of a [`TitlePageId`].
pub ghost enum Handle {
    Title(Seq<char>),
    PageId(Seq<char>),
}

impl Handle {
    /// The request parameter that addresses the page: its name and value.
    pub open spec fn param(self) -> (Seq<char>, Seq<char>) {
        match self {
            Handle::Title(s) => ("titles"@, s),
            Handle::PageId(s) => ("pageids"@, s),
        }
    }
}

impl View for TitlePageId {
    type V = Handle;

    open spec fn view(&self) -> Handle {
        match self {
            TitlePageId::Title(s) => Handle::Title(s@),
            TitlePageId::PageId(s) => Handle::PageId(s@),
        }
    }
}

impl TitlePageId {
    /// The request parameter that addresses the page: `titles` for a title,
    /// `pageids` for an identifier.
    pub fn query_param(&self) -> (qp: (String, String))
        ensures
            (qp.0@, qp.1@) == self@.param(),
    {
        match self {
            TitlePageId::Title(s) => ("titles".to_owned(), s.clone()),
            TitlePageId::PageId(s) => ("pageids".to_owned(), s.clone()),
        }
    }

    /// A copy of the handle.
    pub fn copy(&self) -> (c: TitlePageId)
        ensures
            c@ == self@,
    {
        match self {
            TitlePageId::Title(s) => TitlePageId::Title(s.clone()),
            TitlePageId::PageId(s) => TitlePageId::PageId(s.clone()),
        }
    }
}

/// The number of redirects that one operation follows before it gives up.
pub const MAX_REDIRECTS: usize = 20;

/// What an operation ends with before its answer is read: a text that the
/// handle gave away without a request, or the document that reports no
/// further redirect.
pub ghost enum Settled {
    Known(Seq<char>),
    Document(Tree),
}

/// The answer of an operation: a text, or the coordinates of a page.
pub ghost enum Answer {
    Text(Seq<char>),
    Place(Option<(Seq<char>, Seq<char>)>),
}

/// What the handle says of the page without a request: its identifier to
/// the one who asks for the identifier, its title to the one who asks for
/// the title.
pub open spec fn known(op: Operation, handle: Handle) -> Option<Seq<char>> {
    match (op, handle) {
        (Operation::PageId, Handle::PageId(s)) => Some(s),
        (Operation::Title, Handle::Title(s)) => Some(s),
        _ => None,
    }
}

/// Where an operation on the page `handle` ends when the server answers its
/// requests with `replies`, one after the other, and at most `budget`
/// requests are made. A reply that reports a redirect moves the operation to
/// the page of the title it names. `None`: the replies do not suffice.
pub open spec fn track(op: Operation, handle: Handle, replies: Seq<Reply>, budget: nat) -> Option<
    Result<Settled, Failure>,
>
    decreases replies.len(),
{
    match known(op, handle) {
        Some(s) => Some(Ok(Settled::Known(s))),
        None => if budget == 0 {
            Some(Err(Failure::RedirectCycle))
        } else if replies.len() == 0 {
            None
        } else {
            match replies[0] {
                Reply::Failed(f) => Some(Err(f)),
                Reply::Document(q) => match redirect_target(q) {
                    Some(x) => track(op, Handle::Title(x), replies.skip(1), (budget - 1) as nat),
                    None => Some(Ok(Settled::Document(q))),
                },
            }
        },
    }
}

/// An operation settles without a document only where it asks for the
/// identifier or the title.
pub proof fn lemma_known_needs_handle(op: Operation, handle: Handle, replies: Seq<Reply>, budget: nat)
    requires
        op != Operation::PageId,
        op != Operation::Title,
    ensures
        !(track(op, handle, replies, budget) matches Some(Ok(Settled::Known(_)))),
    decreases replies.len(),
{
    if budget > 0 && replies.len() > 0 {
        match replies[0] {
            Reply::Document(q) => match redirect_target(q) {
                Some(x) => {
                    lemma_known_needs_handle(op, Handle::Title(x), replies.skip(1), (budget - 1) as nat);
                },
                None => {},
            },
            _ => {},
        }
    }
}

/// An operation that the limit on requests does not stop ends the same with
/// one more request allowed.
pub proof fn lemma_budget_to_spare(op: Operation, handle: Handle, replies: Seq<Reply>, budget: nat)
    requires
        track(op, handle, replies, budget) != Some(
            Err::<Settled, Failure>(Failure::RedirectCycle),
        ),
    ensures
        track(op, handle, replies, budget + 1) == track(op, handle, replies, budget),
    decreases replies.len(),
{
    if known(op, handle) is None && budget > 0 && replies.len() > 0 {
        match replies[0] {
            Reply::Document(q) => match redirect_target(q) {
                Some(x) => {
                    lemma_budget_to_spare(
                        op,
                        Handle::Title(x),
                        replies.skip(1),
                        (budget - 1) as nat,
                    );
                },
                None => {},
            },
            _ => {},
        }
    }
}

/// Redirect resolution. Where an operation has to ask, and the reply reports
/// a redirect to the title `x`, the operation ends as the same operation
/// does on a fresh page made from the title `x`, given the replies that
/// follow, with one request fewer to spend. Counted from a fresh start both
/// end the same, unless the first is stopped as a chain of redirects that is
/// too long.
pub proof fn lemma_redirect_is_followed(
    op: Operation,
    handle: Handle,
    q: Tree,
    x: Seq<char>,
    rest: Seq<Reply>,
    budget: nat,
)
    requires
        known(op, handle) is None,
        redirect_target(q) == Some(x),
    ensures
        track(op, handle, seq![Reply::Document(q)] + rest, budget + 1) == track(
            op,
            Handle::Title(x),
            rest,
            budget,
        ),
        outcome(op, handle, seq![Reply::Document(q)] + rest) == outcome(op, Handle::Title(x), rest)
            || outcome(op, handle, seq![Reply::Document(q)] + rest) == Some(
            Err::<Answer, Failure>(Failure::RedirectCycle),
        ),
{
    let replies = seq![Reply::Document(q)] + rest;
    assert(replies[0] == Reply::Document(q));
    assert(replies.skip(1) =~= rest);
    assert(track(op, handle, replies, budget + 1) == track(op, Handle::Title(x), rest, budget));
    let cap = MAX_REDIRECTS as nat;
    assert(track(op, handle, replies, cap + 1) == track(op, Handle::Title(x), rest, cap));
    if track(op, Handle::Title(x), rest, cap) != Some(
        Err::<Settled, Failure>(Failure::RedirectCycle),
    ) {
        lemma_budget_to_spare(op, Handle::Title(x), rest, cap);
    }
}

/// Whether `replies` are the replies to the requests that an operation on
/// the page `handle` makes at `site`, with at most `budget` requests. The
/// first is what the site gives to the request of the operation for
/// `handle`, each later one what it gives to the request of the same
/// operation for the title that the reply before it redirects to. There are
/// as many replies as requests: none where the handle gives the answer away
/// or nothing may be asked, and none behind a reply that fails or reports no
/// redirect.
pub open spec fn asked<A: HttpClient>(
    site: &Wikipedia<A>,
    op: Operation,
    handle: Handle,
    replies: Seq<Reply>,
    budget: nat,
) -> bool
    decreases replies.len(),
{
    if known(op, handle) is Some || budget == 0 {
        replies.len() == 0
    } else {
        &&& replies.len() > 0
        &&& site.gives(op.request(handle), replies[0])
        &&& match replies[0] {
            Reply::Document(q) => match redirect_target(q) {
                Some(x) => asked(site, op, Handle::Title(x), replies.skip(1), (budget - 1) as nat),
                None => replies.len() == 1,
            },
            Reply::Failed(_) => replies.len() == 1,
        }
    }
}

/// The requests of a redirected operation. Where an operation has to ask,
/// and the reply reports a redirect to the title `x`, the replies are those
/// to its requests exactly where the first answers the request for the page
/// itself and the rest are the replies to the requests of the same operation
/// on a fresh page made from the title `x`: the operation's own parameters,
/// the format, the action, and `titles` with `x`.
pub proof fn lemma_redirect_is_asked<A: HttpClient>(
    site: &Wikipedia<A>,
    op: Operation,
    handle: Handle,
    q: Tree,
    x: Seq<char>,
    rest: Seq<Reply>,
    budget: nat,
)
    requires
        known(op, handle) is None,
        redirect_target(q) == Some(x),
    ensures
        asked(site, op, handle, seq![Reply::Document(q)] + rest, budget + 1) == (site.gives(
            op.request(handle),
            Reply::Document(q),
        ) && asked(site, op, Handle::Title(x), rest, budget)),
        op.request(Handle::Title(x)) == op.fixed() + seq![
            ("format"@, "json"@),
            ("action"@, "query"@),
            ("titles"@, x),
        ],
{
    let replies = seq![Reply::Document(q)] + rest;
    assert(replies[0] == Reply::Document(q));
    assert(replies.skip(1) =~= rest);
}

/// The answer that an operation reads where it has settled.
pub open spec fn finish(op: Operation, settled: Settled) -> Result<Answer, Failure> {
    match settled {
        Settled::Known(s) => Ok(Answer::Text(s)),
        Settled::Document(q) => match op {
            Operation::Coordinates => match coordinates_of(q) {
                Ok(place) => Ok(Answer::Place(place)),
                Err(f) => Err(f),
            },
            _ => match required(
                match op {
                    Operation::PageId => first_page_key(q),
                    Operation::Title => text_of(field(first_page(q), "title"@)),
                    Operation::HtmlContent => text_of(
                        field(head(field(first_page(q), "revisions"@)), "*"@),
                    ),
                    _ => text_of(field(first_page(q), "extract"@)),
                },
            ) {
                Ok(s) => Ok(Answer::Text(s)),
                Err(f) => Err(f),
            },
        },
    }
}

/// The outcome of an operation on the page `handle` when the server answers
/// with `replies`: the answer or the failure, or `None` where the replies do
/// not suffice.
pub open spec fn outcome(op: Operation, handle: Handle, replies: Seq<Reply>) -> Option<
    Result<Answer, Failure>,
> {
    match track(op, handle, replies, (MAX_REDIRECTS + 1) as nat) {
        Some(Ok(settled)) => Some(finish(op, settled)),
        Some(Err(f)) => Some(Err(f)),
        None => None,
    }
}

/// The answer that a result with a text stands for.
pub open spec fn text_answer(r: Result<String, WikiError>) -> Result<Answer, Failure> {
    match r {
        Ok(s) => Ok(Answer::Text(s@)),
        Err(e) => Err(e@),
    }
}

/// The answer that a result with coordinates stands for.
pub open spec fn place_answer(r: Result<Option<(String, String)>, WikiError>) -> Result<
    Answer,
    Failure,
> {
    match coordinates_view(r) {
        Ok(place) => Ok(Answer::Place(place)),
        Err(f) => Err(f),
    }
}

/// The page of results that a reply holds for a resource, or the failure to
/// get one. `first` says whether the reply answers the first request of a
/// sequence.
pub open spec fn fetched(resource: Resource, reply: Reply, first: bool) -> Result<
    (Seq<Tree>, Option<Pairs>),
    Failure,
> {
    match reply {
        Reply::Failed(f) => Err(f),
        Reply::Document(q) => page_of(resource, q, first),
    }
}

/// The request for the sections of the page `pageid`.
pub open spec fn sections_request(pageid: Seq<char>) -> Pairs {
    seq![
        ("prop"@, "sections"@),
        ("format"@, "json"@),
        ("action"@, "parse"@),
        ("pageid"@, pageid),
    ]
}

/// The headings of the sections that a reply lists.
pub open spec fn sections_listed(reply: Reply) -> Result<Seq<Seq<char>>, Failure> {
    match reply {
        Reply::Failed(f) => Err(f),
        Reply::Document(q) => listing(q, "parse"@, "sections"@, "line"@),
    }
}

/// Where an operation has settled.
pub enum Resolved {
    Known(String),
    Document(Json),
}

/// The value of the end of an operation.
pub open spec fn resolved_view(r: Result<Resolved, WikiError>) -> Result<Settled, Failure> {
    match r {
        Ok(Resolved::Known(s)) => Ok(Settled::Known(s@)),
        Ok(Resolved::Document(q)) => Ok(Settled::Document(q@)),
        Err(e) => Err(e@),
    }
}

fn known_text(op: Operation, identifier: &TitlePageId) -> (r: Option<String>)
    ensures
        text_view(r) == known(op, identifier@),
{
    match (op, identifier) {
        (Operation::PageId, TitlePageId::PageId(s)) => Some(s.clone()),
        (Operation::Title, TitlePageId::Title(s)) => Some(s.clone()),
        _ => None,
    }
}

/// A wikipedia article.
#[derive(Debug)]
pub struct Page<'a, A: HttpClient> {
    wikipedia: &'a Wikipedia<A>,
    identifier: TitlePageId,
}

impl<'a, A: HttpClient> Page<'a, A> {
    /// The handle by which the page is addressed.
    pub closed spec fn handle(&self) -> Handle {
        self.identifier@
    }

    /// The site that the page belongs to.
    pub closed spec fn site(&self) -> &'a Wikipedia<A> {
        self.wikipedia
    }

    /// Whether `replies` are the replies to the requests that the operation
    /// `op` makes on this page, from the first request on.
    pub open spec fn asks(&self, op: Operation, replies: Seq<Reply>) -> bool {
        asked(self.site(), op, self.handle(), replies, (MAX_REDIRECTS + 1) as nat)
    }

    /// Creates a new `Page` given a `title`.
    pub fn from_title(wikipedia: &'a Wikipedia<A>, title: String) -> (page: Page<'a, A>)
        ensures
            page.handle() == Handle::Title(title@),
            page.site() == wikipedia,
    {
        Page { wikipedia, identifier: TitlePageId::Title(title) }
    }

    /// Creates a new `Page` given a `pageid`.
    pub fn from_pageid(wikipedia: &'a Wikipedia<A>, pageid: String) -> (page: Page<'a, A>)
        ensures
            page.handle() == Handle::PageId(pageid@),
            page.site() == wikipedia,
    {
        Page { wikipedia, identifier: TitlePageId::PageId(pageid) }
    }

    /// Carries an operation to where it settles: asks, and for as long as
    /// the reply reports a redirect, asks again for the page it names. Each
    /// request is that of the operation for the page it has reached, and
    /// the result is where the replies to these requests lead.
    pub fn settle(&self, op: Operation) -> (r: Result<Resolved, WikiError>)
        ensures
            exists|replies: Seq<Reply>|
                self.asks(op, replies) && #[trigger] track(
                    op,
                    self.handle(),
                    replies,
                    (MAX_REDIRECTS + 1) as nat,
                ) == Some(resolved_view(r)),
    {
        let mut identifier = self.identifier.copy();
        let mut budget: usize = MAX_REDIRECTS + 1;
        let ghost total = (MAX_REDIRECTS + 1) as nat;
        let ghost mut seen: Seq<Reply> = Seq::empty();
        proof {
            assert forall|rest: Seq<Reply>| #[trigger]
                track(op, self.handle(), seen + rest, total) == track(
                    op,
                    identifier@,
                    rest,
                    budget as nat,
                ) by {
                assert(seen + rest =~= rest);
            }
            assert forall|rest: Seq<Reply>| #[trigger]
                asked(self.wikipedia, op, identifier@, rest, budget as nat) implies asked(
                self.wikipedia,
                op,
                self.handle(),
                seen + rest,
                total,
            ) by {
                assert(seen + rest =~= rest);
            }
        }
        loop
            invariant
                total == MAX_REDIRECTS + 1,
                forall|rest: Seq<Reply>| #[trigger]
                    track(op, self.handle(), seen + rest, total) == track(
                        op,
                        identifier@,
                        rest,
                        budget as nat,
                    ),
                forall|rest: Seq<Reply>| #[trigger]
                    asked(self.wikipedia, op, identifier@, rest, budget as nat) ==> asked(
                        self.wikipedia,
                        op,
                        self.handle(),
                        seen + rest,
                        total,
                    ),
            decreases budget,
        {
            let ghost none = Seq::<Reply>::empty();
            proof {
                assert(seen + none =~= seen);
            }
            match known_text(op, &identifier) {
                Some(s) => {
                    let r = Ok(Resolved::Known(s));
                    proof {
                        assert(track(op, identifier@, none, budget as nat) == Some(
                            resolved_view(r),
                        ));
                        assert(asked(self.wikipedia, op, identifier@, none, budget as nat));
                        assert(self.asks(op, seen) && track(
                            op,
                            self.handle(),
                            seen,
                            (MAX_REDIRECTS + 1) as nat,
                        ) == Some(resolved_view(r)));
                    }
                    return r;
                },
                None => {},
            }
            if budget == 0 {
                let r = Err(WikiError::RedirectCycle);
                proof {
                    assert(track(op, identifier@, none, budget as nat) == Some(resolved_view(r)));
                    assert(asked(self.wikipedia, op, identifier@, none, budget as nat));
                    assert(self.asks(op, seen) && track(
                        op,
                        self.handle(),
                        seen,
                        (MAX_REDIRECTS + 1) as nat,
                    ) == Some(resolved_view(r)));
                }
                return r;
            }
            let params = operation_params(op, &identifier);
            let answer = self.wikipedia.query(&params);
            let ghost reply = reply_of(answer);
            let ghost one = seq![reply];
            proof {
                assert(one.skip(1) =~= none);
                assert(seen + one =~= seen.push(reply));
                assert(self.wikipedia.gives(op.request(identifier@), reply));
            }
            match answer {
                Err(e) => {
                    let r = Err(e);
                    proof {
                        assert(track(op, identifier@, one, budget as nat) == Some(
                            resolved_view(r),
                        ));
                        assert(asked(self.wikipedia, op, identifier@, one, budget as nat));
                        assert(self.asks(op, seen + one) && track(
                            op,
                            self.handle(),
                            seen + one,
                            (MAX_REDIRECTS + 1) as nat,
                        ) == Some(resolved_view(r)));
                    }
                    return r;
                },
                Ok(q) => match redirect(&q) {
                    None => {
                        let r = Ok(Resolved::Document(q));
                        proof {
                            assert(track(op, identifier@, one, budget as nat) == Some(
                                resolved_view(r),
                            ));
                            assert(asked(self.wikipedia, op, identifier@, one, budget as nat));
                            assert(self.asks(op, seen + one) && track(
                                op,
                                self.handle(),
                                seen + one,
                                (MAX_REDIRECTS + 1) as nat,
                            ) == Some(resolved_view(r)));
                        }
                        return r;
                    },
                    Some(x) => {
                        proof {
                            assert forall|rest: Seq<Reply>| #[trigger]
                                track(op, self.handle(), seen.push(reply) + rest, total) == track(
                                    op,
                                    Handle::Title(x@),
                                    rest,
                                    (budget - 1) as nat,
                                ) by {
                                assert(seen.push(reply) + rest =~= seen + (one + rest));
                                assert((one + rest).skip(1) =~= rest);
                                assert((one + rest)[0] == reply);
                            }
                            assert forall|rest: Seq<Reply>| #[trigger]
                                asked(
                                    self.wikipedia,
                                    op,
                                    Handle::Title(x@),
                                    rest,
                                    (budget - 1) as nat,
                                ) implies asked(
                                self.wikipedia,
                                op,
                                self.handle(),
                                seen.push(reply) + rest,
                                total,
                            ) by {
                                assert(seen.push(reply) + rest =~= seen + (one + rest));
                                assert((one + rest).skip(1) =~= rest);
                                assert((one + rest)[0] == reply);
                                assert(asked(
                                    self.wikipedia,
                                    op,
                                    identifier@,
                                    one + rest,
                                    budget as nat,
                                ));
                            }
                            seen = seen.push(reply);
                        }
                        identifier = TitlePageId::Title(x);
                        budget -= 1;
                    },
                },
            }
        }
    }

    /// The size of a page of results of a resource, as the site's settings
    /// have it.
    pub open spec fn limit(&self, resource: Resource) -> Seq<char> {
        match resource {
            Resource::Images => self.site().images_results@,
            Resource::Categories => self.site().categories_results@,
            _ => self.site().links_results@,
        }
    }

    /// The request for one page of results of a resource: the first page
    /// where `cont` is `None`, else the page that the continuation leads to.
    pub fn request_for(&self, resource: Resource, cont: &Option<IterElems>) -> (params: IterElems)
        ensures
            pairs(params@) == resource.request(self.limit(resource), self.handle(), token(*cont)),
    {
        let limit = match resource {
            Resource::Images => self.wikipedia.images_results.as_str(),
            Resource::Categories => self.wikipedia.categories_results.as_str(),
            _ => self.wikipedia.links_results.as_str(),
        };
        resource_params(resource, limit, &self.identifier, cont)
    }

    /// Asks for one page of results of a resource and reads the reply.
    pub fn request_next(&self, resource: Resource, cont: &Option<IterElems>) -> (r: Result<
        WikiResponse,
        WikiError,
    >)
        ensures
            exists|reply: Reply|
                self.site().gives(
                    resource.request(self.limit(resource), self.handle(), token(*cont)),
                    reply,
                ) && #[trigger] fetched(resource, reply, cont is None) == page_view(
                    r,
                ),
    {
        let params = self.request_for(resource, cont);
        let answer = self.wikipedia.query(&params);
        let ghost reply = reply_of(answer);
        let r = match answer {
            Ok(q) => read_page(resource, &q, cont.is_none()),
            Err(e) => Err(e),
        };
        proof {
            assert(self.site().gives(
                resource.request(self.limit(resource), self.handle(), token(*cont)),
                reply,
            ) && fetched(resource, reply, cont is None) == page_view(r));
        }
        r
    }

    /// Asks for one page of the images of the page.
    pub fn request_images(&self, cont: &Option<IterElems>) -> (r: Result<WikiResponse, WikiError>)
        ensures
            exists|reply: Reply|
                self.site().gives(
                    Resource::Images.request(self.limit(Resource::Images), self.handle(), token(*cont)),
                    reply,
                ) && #[trigger] fetched(Resource::Images, reply, cont is None)
                    == page_view(r),
    {
        self.request_next(Resource::Images, cont)
    }

    /// Asks for one page of the external links of the page.
    pub fn request_extlinks(&self, cont: &Option<IterElems>) -> (r: Result<
        WikiResponse,
        WikiError,
    >)
        ensures
            exists|reply: Reply|
                self.site().gives(
                    Resource::References.request(self.limit(Resource::References), self.handle(), token(*cont)),
                    reply,
                ) && #[trigger] fetched(Resource::References, reply, cont is None)
                    == page_view(r),
    {
        self.request_next(Resource::References, cont)
    }

    /// Asks for one page of the internal links of the page.
    pub fn request_links(&self, cont: &Option<IterElems>) -> (r: Result<WikiResponse, WikiError>)
        ensures
            exists|reply: Reply|
                self.site().gives(
                    Resource::Links.request(self.limit(Resource::Links), self.handle(), token(*cont)),
                    reply,
                ) && #[trigger] fetched(Resource::Links, reply, cont is None)
                    == page_view(r),
    {
        self.request_next(Resource::Links, cont)
    }

    /// Asks for one page of the categories of the page.
    pub fn request_categories(&self, cont: &Option<IterElems>) -> (r: Result<
        WikiResponse,
        WikiError,
    >)
        ensures
            exists|reply: Reply|
                self.site().gives(
                    Resource::Categories.request(self.limit(Resource::Categories), self.handle(), token(*cont)),
                    reply,
                ) && #[trigger] fetched(Resource::Categories, reply, cont is None)
                    == page_view(r),
    {
        self.request_next(Resource::Categories, cont)
    }

    /// Asks for one page of the language links of the page.
    pub fn request_langlinks(&self, cont: &Option<IterElems>) -> (r: Result<
        WikiResponse,
        WikiError,
    >)
        ensures
            exists|reply: Reply|
                self.site().gives(
                    Resource::LangLinks.request(self.limit(Resource::LangLinks), self.handle(), token(*cont)),
                    reply,
                ) && #[trigger] fetched(Resource::LangLinks, reply, cont is None)
                    == page_view(r),
    {
        self.request_next(Resource::LangLinks, cont)
    }

    /// Creates an iterator to view all images in the `Page`.
    pub fn get_images(&self) -> (r: Result<Iter<'_, A, Image>, WikiError>)
        ensures
            exists|reply: Reply|
                self.site().gives(
                    Resource::Images.request(self.limit(Resource::Images), self.handle(), None),
                    reply,
                ) && match #[trigger] fetched(Resource::Images, reply, true) {
                    Ok(first) => r is Ok && r->Ok_0.cursor() == (Cursor {
                        buffer: first.0,
                        token: first.1,
                    }) && r->Ok_0.page() == self,
                    Err(f) => r is Err && r->Err_0@ == f,
                },
    {
        Iter::new(self)
    }

    /// Creates an iterator to view all references (external links) in the
    /// `Page`.
    pub fn get_references(&self) -> (r: Result<Iter<'_, A, Reference>, WikiError>)
        ensures
            exists|reply: Reply|
                self.site().gives(
                    Resource::References.request(self.limit(Resource::References), self.handle(), None),
                    reply,
                ) && match #[trigger] fetched(Resource::References, reply, true) {
                    Ok(first) => r is Ok && r->Ok_0.cursor() == (Cursor {
                        buffer: first.0,
                        token: first.1,
                    }) && r->Ok_0.page() == self,
                    Err(f) => r is Err && r->Err_0@ == f,
                },
    {
        Iter::new(self)
    }

    /// Creates an iterator to view all internal links in the `Page`.
    pub fn get_links(&self) -> (r: Result<Iter<'_, A, Link>, WikiError>)
        ensures
            exists|reply: Reply|
                self.site().gives(
                    Resource::Links.request(self.limit(Resource::Links), self.handle(), None),
                    reply,
                ) && match #[trigger] fetched(Resource::Links, reply, true) {
                    Ok(first) => r is Ok && r->Ok_0.cursor() == (Cursor {
                        buffer: first.0,
                        token: first.1,
                    }) && r->Ok_0.page() == self,
                    Err(f) => r is Err && r->Err_0@ == f,
                },
    {
        Iter::new(self)
    }

    /// Creates an iterator to view all categories of the `Page`.
    pub fn get_categories(&self) -> (r: Result<Iter<'_, A, Category>, WikiError>)
        ensures
            exists|reply: Reply|
                self.site().gives(
                    Resource::Categories.request(self.limit(Resource::Categories), self.handle(), None),
                    reply,
                ) && match #[trigger] fetched(Resource::Categories, reply, true) {
                    Ok(first) => r is Ok && r->Ok_0.cursor() == (Cursor {
                        buffer: first.0,
                        token: first.1,
                    }) && r->Ok_0.page() == self,
                    Err(f) => r is Err && r->Err_0@ == f,
                },
    {
        Iter::new(self)
    }

    /// Creates an iterator to view all langlinks of the `Page`: the titles
    /// of the page in all available languages.
    pub fn get_langlinks(&self) -> (r: Result<Iter<'_, A, LangLink>, WikiError>)
        ensures
            exists|reply: Reply|
                self.site().gives(
                    Resource::LangLinks.request(self.limit(Resource::LangLinks), self.handle(), None),
                    reply,
                ) && match #[trigger] fetched(Resource::LangLinks, reply, true) {
                    Ok(first) => r is Ok && r->Ok_0.cursor() == (Cursor {
                        buffer: first.0,
                        token: first.1,
                    }) && r->Ok_0.page() == self,
                    Err(f) => r is Err && r->Err_0@ == f,
                },
    {
        Iter::new(self)
    }

    /// The request that `get_sections` sends for the page `pageid`.
    pub fn sections_params(pageid: &str) -> (params: IterElems)
        ensures
            pairs(params@) == sections_request(pageid@),
    {
        let mut params: IterElems = Vec::new();
        params.push(pair("prop", "sections"));
        params.push(pair("format", "json"));
        params.push(pair("action", "parse"));
        params.push(pair("pageid", pageid));
        assert(pairs(params@) =~= sections_request(pageid@));
        params
    }

    /// Fetches all sections of the article: finds the identifier of the
    /// page, asks for the page of that identifier to be parsed, and returns
    /// the heading of each section that the reply lists.
    pub fn get_sections(&self) -> (r: Result<Vec<String>, WikiError>)
        ensures
            exists|replies: Seq<Reply>|
                self.asks(Operation::PageId, replies) && match #[trigger] outcome(
                    Operation::PageId,
                    self.handle(),
                    replies,
                ) {
                    Some(Ok(Answer::Text(pageid))) => exists|reply: Reply|
                        self.site().gives(sections_request(pageid), reply) && list_view(r)
                            == #[trigger] sections_listed(reply),
                    Some(Ok(Answer::Place(_))) => false,
                    Some(Err(f)) => r is Err && r->Err_0@ == f,
                    None => false,
                },
    {
        let found = self.get_pageid();
        let ghost replies = choose|replies: Seq<Reply>|
            self.asks(Operation::PageId, replies) && #[trigger] outcome(
                Operation::PageId,
                self.handle(),
                replies,
            ) == Some(text_answer(found));
        let pageid = match found {
            Ok(pageid) => pageid,
            Err(e) => {
                let r = Err(e);
                proof {
                    assert(outcome(Operation::PageId, self.handle(), replies) == Some(
                        Err::<Answer, Failure>(e@),
                    ));
                }
                return r;
            },
        };
        let params = Self::sections_params(pageid.as_str());
        let answer = self.wikipedia.query(&params);
        let ghost reply = reply_of(answer);
        let r = match answer {
            Ok(q) => list_strings(&q, "parse", "sections", "line"),
            Err(e) => Err(e),
        };
        proof {
            assert(self.site().gives(sections_request(pageid@), reply) && list_view(r)
                == sections_listed(reply));
            assert(outcome(Operation::PageId, self.handle(), replies) == Some(
                Ok::<Answer, Failure>(Answer::Text(pageid@)),
            ));
        }
        r
    }

    /// Fetches the content of a section: what stands in the text of the
    /// article between the first header of that title and the next `==`.
    pub fn get_section_content(&self, title: &str) -> (r: Result<Option<String>, WikiError>)
        ensures
            exists|replies: Seq<Reply>|
                self.asks(Operation::Content, replies) && match #[trigger] outcome(
                    Operation::Content,
                    self.handle(),
                    replies,
                ) {
                    Some(Ok(Answer::Text(content))) => r is Ok && text_view(r->Ok_0)
                        == section_text(content, title@),
                    Some(Ok(Answer::Place(_))) => false,
                    Some(Err(f)) => r is Err && r->Err_0@ == f,
                    None => false,
                },
    {
        let found = self.get_content();
        let ghost replies = choose|replies: Seq<Reply>|
            self.asks(Operation::Content, replies) && #[trigger] outcome(
                Operation::Content,
                self.handle(),
                replies,
            ) == Some(text_answer(found));
        let r = match found {
            Ok(content) => Ok(section_of(content.as_str(), title)),
            Err(e) => Err(e),
        };
        proof {
            assert(outcome(Operation::Content, self.handle(), replies) == Some(
                text_answer(found),
            ));
        }
        r
    }

    /// Carries out an operation whose answer is a text.
    fn ask_text(&self, op: Operation) -> (r: Result<String, WikiError>)
        requires
            op != Operation::Coordinates,
        ensures
            exists|replies: Seq<Reply>|
                self.asks(op, replies) && #[trigger] outcome(op, self.handle(), replies) == Some(
                    text_answer(r),
                ),
    {
        let settled = self.settle(op);
        let ghost replies = choose|replies: Seq<Reply>|
            self.asks(op, replies) && #[trigger] track(
                op,
                self.handle(),
                replies,
                (MAX_REDIRECTS + 1) as nat,
            ) == Some(resolved_view(settled));
        let r = match settled {
            Ok(Resolved::Known(s)) => Ok(s),
            Ok(Resolved::Document(q)) => match op {
                Operation::PageId => pageid_of(&q),
                Operation::Title => title_of(&q),
                Operation::HtmlContent => html_of(&q),
                _ => extract_of(&q),
            },
            Err(e) => Err(e),
        };
        proof {
            assert(self.asks(op, replies) && outcome(op, self.handle(), replies) == Some(
                text_answer(r),
            ));
        }
        r
    }

    /// Gets the `Page`'s `pageid`. A page that was made from an identifier
    /// has it without a request. For a page that was made from a title the
    /// server is asked, redirects are followed, and the key of the first
    /// page object of the last reply is the identifier.
    pub fn get_pageid(&self) -> (r: Result<String, WikiError>)
        ensures
            exists|replies: Seq<Reply>|
                self.asks(Operation::PageId, replies) && #[trigger] outcome(
                    Operation::PageId,
                    self.handle(),
                    replies,
                ) == Some(text_answer(r)),
            self.handle() is PageId ==> text_answer(r) == Ok::<Answer, Failure>(
                Answer::Text(self.handle()->PageId_0),
            ),
    {
        let r = self.ask_text(Operation::PageId);
        proof {
            let replies = choose|replies: Seq<Reply>|
                self.asks(Operation::PageId, replies) && #[trigger] outcome(
                    Operation::PageId,
                    self.handle(),
                    replies,
                ) == Some(text_answer(r));
            assert(outcome(Operation::PageId, self.handle(), replies) == Some(text_answer(r)));
        }
        r
    }

    /// Gets the `Page`'s `title`. A page that was made from a title has it
    /// without a request. For a page that was made from an identifier the
    /// server is asked: the title is the one that the reply redirects to or,
    /// without a redirect, the title of the first page object.
    pub fn get_title(&self) -> (r: Result<String, WikiError>)
        ensures
            exists|replies: Seq<Reply>|
                self.asks(Operation::Title, replies) && #[trigger] outcome(
                    Operation::Title,
                    self.handle(),
                    replies,
                ) == Some(text_answer(r)),
            self.handle() is Title ==> text_answer(r) == Ok::<Answer, Failure>(
                Answer::Text(self.handle()->Title_0),
            ),
    {
        let r = self.ask_text(Operation::Title);
        proof {
            let replies = choose|replies: Seq<Reply>|
                self.asks(Operation::Title, replies) && #[trigger] outcome(
                    Operation::Title,
                    self.handle(),
                    replies,
                ) == Some(text_answer(r));
            assert(outcome(Operation::Title, self.handle(), replies) == Some(text_answer(r)));
        }
        r
    }

    /// Gets the plain text of the article: the extract of the first page
    /// object of the reply that reports no further redirect.
    pub fn get_content(&self) -> (r: Result<String, WikiError>)
        ensures
            exists|replies: Seq<Reply>|
                self.asks(Operation::Content, replies) && #[trigger] outcome(
                    Operation::Content,
                    self.handle(),
                    replies,
                ) == Some(text_answer(r)),
    {
        self.ask_text(Operation::Content)
    }

    /// Gets the html content of the article: the rendered text of the first
    /// revision of the first page object.
    pub fn get_html_content(&self) -> (r: Result<String, WikiError>)
        ensures
            exists|replies: Seq<Reply>|
                self.asks(Operation::HtmlContent, replies) && #[trigger] outcome(
                    Operation::HtmlContent,
                    self.handle(),
                    replies,
                ) == Some(text_answer(r)),
    {
        self.ask_text(Operation::HtmlContent)
    }

    /// Gets a summary of the article: the extract of the first page object,
    /// asked for with the introduction only.
    pub fn get_summary(&self) -> (r: Result<String, WikiError>)
        ensures
            exists|replies: Seq<Reply>|
                self.asks(Operation::Summary, replies) && #[trigger] outcome(
                    Operation::Summary,
                    self.handle(),
                    replies,
                ) == Some(text_answer(r)),
    {
        self.ask_text(Operation::Summary)
    }

    /// Returns the latitude and longitude associated to the `Page` if any,
    /// each as the decimal text that the reply holds.
    pub fn get_coordinates(&self) -> (r: Result<Option<(String, String)>, WikiError>)
        ensures
            exists|replies: Seq<Reply>|
                self.asks(Operation::Coordinates, replies) && #[trigger] outcome(
                    Operation::Coordinates,
                    self.handle(),
                    replies,
                ) == Some(place_answer(r)),
    {
        let settled = self.settle(Operation::Coordinates);
        let ghost replies = choose|replies: Seq<Reply>|
            self.asks(Operation::Coordinates, replies) && #[trigger] track(
                Operation::Coordinates,
                self.handle(),
                replies,
                (MAX_REDIRECTS + 1) as nat,
            ) == Some(resolved_view(settled));
        proof {
            lemma_known_needs_handle(Operation::Coordinates, self.handle(), replies, (MAX_REDIRECTS + 1) as nat);
        }
        let r = match settled {
            Ok(Resolved::Known(_)) => Ok(None),
            Ok(Resolved::Document(q)) => read_coordinates(&q),
            Err(e) => Err(e),
        };
        proof {
            assert(self.asks(Operation::Coordinates, replies) && outcome(
                Operation::Coordinates,
                self.handle(),
                replies,
            ) == Some(place_answer(r)));
        }
        r
    }
}

impl<'a, A: HttpClient> PartialEq for Page<'a, A> {
    /// Two pages are equal where both are addressed by the same title, or
    /// both by the same identifier.
    fn eq(&self, other: &Self) -> (b: bool) {
        match (&self.identifier, &other.identifier) {
            (TitlePageId::Title(mine), TitlePageId::Title(theirs)) => *mine == *theirs,
            (TitlePageId::PageId(mine), TitlePageId::PageId(theirs)) => *mine == *theirs,
            _ => false,
        }
    }
}

impl<'a, A: HttpClient> vstd::std_specs::cmp::PartialEqSpecImpl for Page<'a, A> {
    open spec fn obeys_eq_spec() -> bool {
        true
    }

    open spec fn eq_spec(&self, other: &Self) -> bool {
        self.handle() == other.handle()
    }
}

} // verus!
