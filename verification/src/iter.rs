//! The typed items of a page's collections, and how each is read from one
//! raw element of a response.
use crate::error::WikiError;
use crate::http::HttpClient;
use crate::json::{child, field, front, head, string_at, text_of, trees, Json, Tree};
use crate::error::Failure;
use crate::page::{fetched, Handle, Page};
use crate::query::{token, IterElems, Pairs, Resource};
use crate::reply::{
    all_stringified, continuation, continuation_pairs, page_of, page_view, stringified,
    WikiResponse,
};
use crate::text::{starts_with, strip_prefix};
use crate::wiki::Reply;
use std::marker::PhantomData;
use vstd::prelude::*;
use vstd::string::*;

verus! {

/// The value of an item that may be absent.
pub open spec fn item_view<B: View>(item: Option<B>) -> Option<B::V> {
    match item {
        Some(b) => Some(b@),
        None => None,
    }
}

/// A type of item that a page's collection is made of.
pub trait IterItem: Sized + View {
    /// What one raw element of a response yields: the item's value, or
    /// `None` where the element is dropped.
    spec fn extract(value: Tree) -> Option<Self::V>;

    /// The resource that items of this type are fetched from.
    spec fn resource() -> Resource;

    /// Asks for one page of the raw elements of this type of item: the
    /// first page where `cont` is `None`, else the page that the
    /// continuation leads to.
    fn request_next<A: HttpClient>(page: &Page<A>, cont: &Option<IterElems>) -> (r: Result<
        WikiResponse,
        WikiError,
    >)
        ensures
            exists|reply: Reply|
                page.site().gives(
                    Self::resource().request(
                        page.limit(Self::resource()),
                        page.handle(),
                        token(*cont),
                    ),
                    reply,
                ) && #[trigger] fetched(Self::resource(), reply, cont is None) == page_view(r),
    ;

    /// The resource that items of this type are fetched from.
    fn kind() -> (k: Resource)
        ensures
            k == Self::resource(),
    ;

    /// Reads one raw element.
    fn from_value(value: &Json) -> (item: Option<Self>)
        ensures
            item_view(item) == Self::extract(value@),
    ;
}

/// An image of a page.
#[derive(Debug, PartialEq)]
pub struct Image {
    pub url: String,
    pub title: String,
    pub description_url: String,
}

/// The value of an [`Image`].
pub ghost struct ImageModel {
    pub url: Seq<char>,
    pub title: Seq<char>,
    pub description_url: Seq<char>,
}

impl View for Image {
    type V = ImageModel;

    open spec fn view(&self) -> ImageModel {
        ImageModel { url: self.url@, title: self.title@, description_url: self.description_url@ }
    }
}

/// The string under `key` in the first element of `imageinfo`.
pub open spec fn image_info(value: Tree, key: Seq<char>) -> Option<Seq<char>> {
    text_of(field(head(field(Some(value), "imageinfo"@)), key))
}

impl IterItem for Image {
    /// An object that has a string under `title`, and in the first element
    /// of `imageinfo` a string under `url` and one under `descriptionurl`,
    /// is an image. An element that lacks one of the three is dropped.
    open spec fn extract(value: Tree) -> Option<ImageModel> {
        match (
            image_info(value, "url"@),
            text_of(field(Some(value), "title"@)),
            image_info(value, "descriptionurl"@),
        ) {
            (Some(url), Some(title), Some(description_url)) => Some(
                ImageModel { url, title, description_url },
            ),
            _ => None,
        }
    }

    open spec fn resource() -> Resource {
        Resource::Images
    }

    fn request_next<A: HttpClient>(page: &Page<A>, cont: &Option<IterElems>) -> (r: Result<
        WikiResponse,
        WikiError,
    >) {
        page.request_images(cont)
    }

    fn kind() -> (k: Resource) {
        Resource::Images
    }

    fn from_value(value: &Json) -> (item: Option<Image>) {
        let info = front(child(Some(value), "imageinfo"));
        let url = string_at(child(info, "url"));
        let title = string_at(child(Some(value), "title"));
        let description_url = string_at(child(info, "descriptionurl"));
        match (url, title, description_url) {
            (Some(url), Some(title), Some(description_url)) => Some(
                Image { url, title, description_url },
            ),
            _ => None,
        }
    }
}

/// An external link of a page.
#[derive(Debug, PartialEq)]
pub struct Reference {
    pub url: String,
}

/// The value of a [`Reference`].
pub ghost struct ReferenceModel {
    pub url: Seq<char>,
}

impl View for Reference {
    type V = ReferenceModel;

    open spec fn view(&self) -> ReferenceModel {
        ReferenceModel { url: self.url@ }
    }
}

/// A raw reference with the scheme `http:` in front, unless it begins
/// with it already.
pub open spec fn reference_url(raw: Seq<char>) -> Seq<char> {
    if "http:"@.is_prefix_of(raw) {
        raw
    } else {
        "http:"@ + raw
    }
}

impl IterItem for Reference {
    /// An object with a string under `*` is a reference.
    open spec fn extract(value: Tree) -> Option<ReferenceModel> {
        match text_of(field(Some(value), "*"@)) {
            Some(raw) => Some(ReferenceModel { url: reference_url(raw) }),
            None => None,
        }
    }

    open spec fn resource() -> Resource {
        Resource::References
    }

    fn request_next<A: HttpClient>(page: &Page<A>, cont: &Option<IterElems>) -> (r: Result<
        WikiResponse,
        WikiError,
    >) {
        page.request_extlinks(cont)
    }

    fn kind() -> (k: Resource) {
        Resource::References
    }

    fn from_value(value: &Json) -> (item: Option<Reference>) {
        match string_at(child(Some(value), "*")) {
            Some(raw) => {
                if starts_with(raw.as_str(), "http:") {
                    Some(Reference { url: raw })
                } else {
                    Some(Reference { url: "http:".to_owned().concat(raw.as_str()) })
                }
            },
            None => None,
        }
    }
}

/// An internal link of a page.
#[derive(Debug, PartialEq)]
pub struct Link {
    pub title: String,
}

/// The value of a [`Link`].
pub ghost struct LinkModel {
    pub title: Seq<char>,
}

impl View for Link {
    type V = LinkModel;

    open spec fn view(&self) -> LinkModel {
        LinkModel { title: self.title@ }
    }
}

impl IterItem for Link {
    /// An object with a string under `title` is a link.
    open spec fn extract(value: Tree) -> Option<LinkModel> {
        match text_of(field(Some(value), "title"@)) {
            Some(title) => Some(LinkModel { title }),
            None => None,
        }
    }

    open spec fn resource() -> Resource {
        Resource::Links
    }

    fn request_next<A: HttpClient>(page: &Page<A>, cont: &Option<IterElems>) -> (r: Result<
        WikiResponse,
        WikiError,
    >) {
        page.request_links(cont)
    }

    fn kind() -> (k: Resource) {
        Resource::Links
    }

    fn from_value(value: &Json) -> (item: Option<Link>) {
        match string_at(child(Some(value), "title")) {
            Some(title) => Some(Link { title }),
            None => None,
        }
    }
}

/// The title of a page in another language.
#[derive(Debug, PartialEq)]
pub struct LangLink {
    /// The language ID.
    pub lang: String,
    /// The page title in this language, `None` if undefined.
    pub title: Option<String>,
}

/// The value of a [`LangLink`].
pub ghost struct LangLinkModel {
    pub lang: Seq<char>,
    pub title: Option<Seq<char>>,
}

impl View for LangLink {
    type V = LangLinkModel;

    open spec fn view(&self) -> LangLinkModel {
        LangLinkModel {
            lang: self.lang@,
            title: match self.title {
                Some(t) => Some(t@),
                None => None,
            },
        }
    }
}

impl IterItem for LangLink {
    /// An object with a string under `lang` is a language link; its title
    /// is the string under `*`, if there is one.
    open spec fn extract(value: Tree) -> Option<LangLinkModel> {
        match text_of(field(Some(value), "lang"@)) {
            Some(lang) => Some(LangLinkModel { lang, title: text_of(field(Some(value), "*"@)) }),
            None => None,
        }
    }

    open spec fn resource() -> Resource {
        Resource::LangLinks
    }

    fn request_next<A: HttpClient>(page: &Page<A>, cont: &Option<IterElems>) -> (r: Result<
        WikiResponse,
        WikiError,
    >) {
        page.request_langlinks(cont)
    }

    fn kind() -> (k: Resource) {
        Resource::LangLinks
    }

    fn from_value(value: &Json) -> (item: Option<LangLink>) {
        match string_at(child(Some(value), "lang")) {
            Some(lang) => Some(LangLink { lang, title: string_at(child(Some(value), "*")) }),
            None => None,
        }
    }
}

/// A category of a page.
#[derive(Debug, PartialEq)]
pub struct Category {
    pub title: String,
}

/// The value of a [`Category`].
pub ghost struct CategoryModel {
    pub title: Seq<char>,
}

impl View for Category {
    type V = CategoryModel;

    open spec fn view(&self) -> CategoryModel {
        CategoryModel { title: self.title@ }
    }
}

/// A raw category title without the prefix `Category: `, where it has it.
pub open spec fn category_title(raw: Seq<char>) -> Seq<char> {
    if "Category: "@.is_prefix_of(raw) {
        raw.skip("Category: "@.len() as int)
    } else {
        raw
    }
}

impl IterItem for Category {
    /// An object with a string under `title` is a category.
    open spec fn extract(value: Tree) -> Option<CategoryModel> {
        match text_of(field(Some(value), "title"@)) {
            Some(raw) => Some(CategoryModel { title: category_title(raw) }),
            None => None,
        }
    }

    open spec fn resource() -> Resource {
        Resource::Categories
    }

    fn request_next<A: HttpClient>(page: &Page<A>, cont: &Option<IterElems>) -> (r: Result<
        WikiResponse,
        WikiError,
    >) {
        page.request_categories(cont)
    }

    fn kind() -> (k: Resource) {
        Resource::Categories
    }

    fn from_value(value: &Json) -> (item: Option<Category>) {
        match string_at(child(Some(value), "title")) {
            Some(raw) => match strip_prefix(raw.as_str(), "Category: ") {
                Some(rest) => Some(Category { title: rest }),
                None => Some(Category { title: raw }),
            },
            None => None,
        }
    }
}

/// The first item that the raw elements `items` yield: that of the first
/// element that is not dropped.
pub open spec fn next_item<B: IterItem>(items: Seq<Tree>) -> Option<B::V>
    decreases items.len(),
{
    if items.len() == 0 {
        None
    } else {
        match B::extract(items[0]) {
            Some(v) => Some(v),
            None => next_item::<B>(items.skip(1)),
        }
    }
}

/// The raw elements that are left of `items` once the first item is taken:
/// those behind the element that yields it, and none where no element
/// yields one.
pub open spec fn after_next<B: IterItem>(items: Seq<Tree>) -> Seq<Tree>
    decreases items.len(),
{
    if items.len() == 0 {
        items
    } else {
        match B::extract(items[0]) {
            Some(_) => items.skip(1),
            None => after_next::<B>(items.skip(1)),
        }
    }
}

/// All the items that the raw elements `items` yield, in order.
pub open spec fn all_items<B: IterItem>(items: Seq<Tree>) -> Seq<B::V>
    decreases items.len(),
{
    if items.len() == 0 {
        Seq::empty()
    } else {
        match B::extract(items[0]) {
            Some(v) => seq![v] + all_items::<B>(items.skip(1)),
            None => all_items::<B>(items.skip(1)),
        }
    }
}

/// Where an iteration stands: the raw elements of the current page of
/// results that are not consumed yet, and the continuation that leads to the
/// next page, if there is one.
pub ghost struct Cursor {
    pub buffer: Seq<Tree>,
    pub token: Option<Pairs>,
}

impl Cursor {
    /// Whether the sequence has ended: nothing is left to yield and nothing
    /// to fetch.
    pub open spec fn ended<B: IterItem>(self) -> bool {
        next_item::<B>(self.buffer) is None && self.token is None
    }

    /// Where the iteration stands once the first item is taken.
    pub open spec fn advanced<B: IterItem>(self) -> Cursor {
        Cursor { buffer: after_next::<B>(self.buffer), token: self.token }
    }
}

/// Where an iteration stands with the reply to a request for the next page:
/// at the start of that page, with the continuation that the reply carries.
/// A reply that cannot be read ends the sequence.
pub open spec fn refilled(resource: Resource, reply: Reply) -> Cursor {
    match fetched(resource, reply, false) {
        Ok(page) => Cursor { buffer: page.0, token: page.1 },
        Err(_) => Cursor { buffer: Seq::empty(), token: None },
    }
}

/// Where no element yields an item, none is left once they are passed over.
pub proof fn lemma_nothing_left<B: IterItem>(items: Seq<Tree>)
    requires
        next_item::<B>(items) is None,
    ensures
        after_next::<B>(items) == Seq::<Tree>::empty(),
        all_items::<B>(items) == Seq::<B::V>::empty(),
    decreases items.len(),
{
    if items.len() > 0 {
        lemma_nothing_left::<B>(items.skip(1));
    } else {
        assert(items =~= Seq::<Tree>::empty());
    }
}

impl Cursor {
    /// Whether `next` has to ask the server: nothing is left to yield, and
    /// a continuation is held.
    pub open spec fn asks<B: IterItem>(self) -> bool {
        next_item::<B>(self.buffer) is None && self.token is Some
    }

    /// Where the iteration stands once `n` items are taken without asking
    /// the server.
    pub open spec fn after<B: IterItem>(self, n: nat) -> Cursor
        decreases n,
    {
        if n == 0 {
            self
        } else {
            self.advanced::<B>().after::<B>((n - 1) as nat)
        }
    }
}

/// The items that a page of results yields are its first item and those of
/// what is left behind it.
pub proof fn lemma_items_unfold<B: IterItem>(items: Seq<Tree>)
    ensures
        all_items::<B>(items) == match next_item::<B>(items) {
            Some(v) => seq![v] + all_items::<B>(after_next::<B>(items)),
            None => Seq::<B::V>::empty(),
        },
    decreases items.len(),
{
    if items.len() > 0 {
        lemma_items_unfold::<B>(items.skip(1));
    }
}

/// Taken one after the other without asking the server, the items of a page
/// of results are exactly those that its raw elements yield, in order, and
/// after them there is none.
pub proof fn lemma_kth_item<B: IterItem>(start: Cursor, k: nat)
    ensures
        start.after::<B>(k).token == start.token,
        next_item::<B>(start.after::<B>(k).buffer) == (if k < all_items::<B>(start.buffer).len() {
            Some(all_items::<B>(start.buffer)[k as int])
        } else {
            None
        }),
    decreases k,
{
    lemma_items_unfold::<B>(start.buffer);
    if k > 0 {
        let then = start.advanced::<B>();
        lemma_kth_item::<B>(then, (k - 1) as nat);
        match next_item::<B>(start.buffer) {
            Some(v) => {
                let all = seq![v] + all_items::<B>(then.buffer);
                assert(all.len() == 1 + all_items::<B>(then.buffer).len());
                if k < all.len() {
                    assert(all[k as int] == all_items::<B>(then.buffer)[k - 1]);
                }
            },
            None => {
                lemma_nothing_left::<B>(start.buffer);
            },
        }
    }
}

/// A response without a `continue` object is the last page of its
/// sequence. The iteration that starts from it, or is refilled with it,
/// yields exactly the items of that page, never asks the server, and has
/// ended once they are taken.
pub proof fn lemma_last_page<B: IterItem>(q: Tree, first: bool, k: nat)
    requires
        !(q.member("continue"@) matches Some(Tree::Object(_))),
        page_of(B::resource(), q, first) is Ok,
    ensures
        ({
            let page = page_of(B::resource(), q, first)->Ok_0;
            let start = Cursor { buffer: page.0, token: page.1 };
            let items = all_items::<B>(page.0);
            &&& start.token is None
            &&& !start.after::<B>(k).asks::<B>()
            &&& k < items.len() ==> next_item::<B>(start.after::<B>(k).buffer) == Some(
                items[k as int],
            )
            &&& k >= items.len() ==> start.after::<B>(k).ended::<B>()
        }),
{
    let page = page_of(B::resource(), q, first)->Ok_0;
    let start = Cursor { buffer: page.0, token: page.1 };
    assert(continuation(q) == Ok::<Option<Pairs>, Failure>(None));
    lemma_kth_item::<B>(start, k);
}

/// A response with a `continue` object whose values can be sent back leads
/// to one follow-up request. Once the page is used up, that request is made
/// of the fixed parameters of the resource, the format, the action and the
/// page's own parameter, each once, and behind them the pairs of the
/// `continue` object, key by key, as the server gave them: nothing else, and
/// no marker of a fresh sequence.
pub proof fn lemma_follow_up_request<B: IterItem>(
    q: Tree,
    first: bool,
    limit: Seq<char>,
    handle: Handle,
)
    requires
        q.member("continue"@) matches Some(Tree::Object(members)) && all_stringified(members),
        page_of(B::resource(), q, first) is Ok,
    ensures
        ({
            let members = q.member("continue"@)->Some_0->Object_0;
            let page = page_of(B::resource(), q, first)->Ok_0;
            let start = Cursor { buffer: page.0, token: page.1 };
            let used = start.after::<B>(all_items::<B>(page.0).len());
            let fixed = B::resource().fixed(limit);
            let n = fixed.len() as int;
            let request = B::resource().request(limit, handle, used.token);
            &&& page.1 == Some(continuation_pairs(members))
            &&& used.asks::<B>()
            &&& request.len() == n + 3 + members.len()
            &&& request.take(n) == fixed
            &&& request[n] == ("format"@, "json"@)
            &&& request[n + 1] == ("action"@, "query"@)
            &&& request[n + 2] == handle.param()
            &&& forall|i: int|
                0 <= i < members.len() ==> #[trigger] request[n + 3 + i] == (
                    members[i].0,
                    stringified(members[i].1)->Some_0,
                )
        }),
{
    let members = q.member("continue"@)->Some_0->Object_0;
    let page = page_of(B::resource(), q, first)->Ok_0;
    let start = Cursor { buffer: page.0, token: page.1 };
    assert(continuation(q) == Ok::<Option<Pairs>, Failure>(Some(continuation_pairs(members))));
    lemma_kth_item::<B>(start, all_items::<B>(page.0).len());
    let fixed = B::resource().fixed(limit);
    let request = B::resource().request(limit, handle, page.1);
    assert(request.take(fixed.len() as int) =~= fixed);
}

/// Once the sequence has ended it stays ended: nothing is yielded, and
/// nothing is asked of the server.
pub proof fn lemma_ended_stays_ended<B: IterItem>(cursor: Cursor, k: nat)
    requires
        cursor.ended::<B>(),
    ensures
        cursor.after::<B>(k).ended::<B>(),
        !cursor.after::<B>(k).asks::<B>(),
    decreases k,
{
    if k > 0 {
        lemma_nothing_left::<B>(cursor.buffer);
        lemma_ended_stays_ended::<B>(cursor.advanced::<B>(), (k - 1) as nat);
    }
}

/// A forward-only sequence of the items of one resource of a page. It holds
/// one page of results at a time and asks for the next when that one is
/// used up.
pub struct Iter<'a, A: HttpClient, B: IterItem> {
    page: &'a Page<'a, A>,
    inner: Vec<Json>,
    pos: usize,
    cont: Option<IterElems>,
    phantom: PhantomData<B>,
}

impl<'a, A: HttpClient, B: IterItem> Iter<'a, A, B> {
    /// Where the iteration stands.
    pub closed spec fn cursor(&self) -> Cursor {
        Cursor {
            buffer: if self.pos <= self.inner@.len() {
                trees(self.inner@).skip(self.pos as int)
            } else {
                Seq::empty()
            },
            token: token(self.cont),
        }
    }

    /// The page whose items these are.
    pub closed spec fn page(&self) -> &'a Page<'a, A> {
        self.page
    }

    /// The request for the page of results that the continuation leads to:
    /// the fixed parameters of the resource and of the page, followed by
    /// the pairs of the continuation as the server gave them.
    pub open spec fn follow_up(&self) -> Pairs {
        B::resource().request(
            self.page().limit(B::resource()),
            self.page().handle(),
            self.cursor().token,
        )
    }

    /// Starts the sequence: asks for the first page of results at once, and
    /// fails where that request fails or its reply holds no page objects.
    pub fn new(page: &'a Page<'a, A>) -> (r: Result<Iter<'a, A, B>, WikiError>)
        ensures
            exists|reply: Reply|
                page.site().gives(
                    B::resource().request(page.limit(B::resource()), page.handle(), None),
                    reply,
                ) && match #[trigger] fetched(B::resource(), reply, true) {
                    Ok(first) => r is Ok && r->Ok_0.cursor() == (Cursor {
                        buffer: first.0,
                        token: first.1,
                    }) && r->Ok_0.page() == page,
                    Err(f) => r is Err && r->Err_0@ == f,
                },
    {
        let none: Option<IterElems> = None;
        let answer = B::request_next(page, &none);
        let ghost reply = choose|reply: Reply|
            page.site().gives(
                B::resource().request(page.limit(B::resource()), page.handle(), token(none)),
                reply,
            ) && #[trigger] fetched(B::resource(), reply, none is None) == page_view(answer);
        let r = match answer {
            Ok((array, cont)) => {
                let it = Iter { page, inner: array, pos: 0, cont, phantom: PhantomData };
                proof {
                    assert(trees(it.inner@).skip(0) =~= trees(it.inner@));
                }
                Ok(it)
            },
            Err(e) => Err(e),
        };
        proof {
            assert(page.site().gives(
                B::resource().request(page.limit(B::resource()), page.handle(), None),
                reply,
            ) && match fetched(B::resource(), reply, true) {
                Ok(first) => r is Ok && r->Ok_0.cursor() == (Cursor {
                    buffer: first.0,
                    token: first.1,
                }) && r->Ok_0.page() == page,
                Err(f) => r is Err && r->Err_0@ == f,
            });
        }
        r
    }

    /// Asks for the page of results that the continuation leads to, and puts
    /// it in the place of the one that is held. Without a continuation
    /// nothing is asked and nothing changes. A request that fails, or a reply
    /// that cannot be read, ends the sequence.
    fn fetch_next(&mut self)
        ensures
            final(self).page() == old(self).page(),
            match old(self).cursor().token {
                None => final(self).cursor() == old(self).cursor(),
                Some(_) => exists|reply: Reply|
                    {
                        &&& old(self).page().site().gives(old(self).follow_up(), reply)
                        &&& final(self).cursor() == #[trigger] refilled(B::resource(), reply)
                    },
            },
    {
        if self.cont.is_none() {
            return ;
        }
        let answer = B::request_next(self.page, &self.cont);
        let ghost reply = choose|reply: Reply|
            self.page.site().gives(
                B::resource().request(
                    self.page.limit(B::resource()),
                    self.page.handle(),
                    token(self.cont),
                ),
                reply,
            ) && #[trigger] fetched(B::resource(), reply, self.cont is None) == page_view(answer);
        proof {
            assert(self.page().site().gives(self.follow_up(), reply));
            assert(fetched(B::resource(), reply, false) == page_view(answer));
        }
        match answer {
            Ok((array, cont)) => {
                self.inner = array;
                self.cont = cont;
            },
            Err(_) => {
                self.inner = Vec::new();
                self.cont = None;
            },
        }
        self.pos = 0;
        proof {
            assert(trees(self.inner@).skip(0) =~= trees(self.inner@));
            let target = refilled(B::resource(), reply);
            assert(self.cursor().buffer =~= target.buffer);
            assert(self.cursor().token == target.token);
            assert(self.cursor() == target);
        }
    }

    /// Takes the next item out of the page of results that is held, passing
    /// over the elements that yield none.
    fn pop(&mut self) -> (item: Option<B>)
        ensures
            item_view(item) == next_item::<B>(old(self).cursor().buffer),
            final(self).cursor() == old(self).cursor().advanced::<B>(),
            final(self).page() == old(self).page(),
    {
        if self.pos > self.inner.len() {
            return None;
        }
        let ghost whole = self.cursor().buffer;
        proof {
            assert(whole.skip(0) =~= whole);
        }
        while self.pos < self.inner.len()
            invariant
                self.pos <= self.inner@.len(),
                self.inner == old(self).inner,
                self.cont == old(self).cont,
                self.page == old(self).page,
                whole == old(self).cursor().buffer,
                self.cursor().buffer =~= trees(self.inner@).skip(self.pos as int),
                next_item::<B>(whole) == next_item::<B>(self.cursor().buffer),
                after_next::<B>(whole) == after_next::<B>(self.cursor().buffer),
            decreases self.inner@.len() - self.pos,
        {
            let ghost here = self.cursor().buffer;
            proof {
                assert(here[0] == self.inner@[self.pos as int]@);
                assert(here.skip(1) =~= trees(self.inner@).skip(self.pos + 1));
            }
            let found = B::from_value(&self.inner[self.pos]);
            self.pos += 1;
            match found {
                Some(item) => {
                    return Some(item);
                },
                None => {},
            }
        }
        proof {
            assert(self.cursor().buffer =~= Seq::<Tree>::empty());
        }
        None
    }

    /// The request that `next` makes where it has to: `None` while the page
    /// of results that is held yields an item, and once nothing is left to
    /// fetch; else the fixed parameters of the resource and of the page,
    /// followed by the pairs of the continuation as the server gave them.
    pub fn pending(&self) -> (request: Option<IterElems>)
        ensures
            token(request) == (if self.cursor().asks::<B>() {
                Some(self.follow_up())
            } else {
                None
            }),
    {
        if self.cont.is_none() {
            return None;
        }
        if self.pos <= self.inner.len() {
            let ghost whole = self.cursor().buffer;
            let mut i: usize = self.pos;
            proof {
                assert(whole.skip(0) =~= whole);
            }
            while i < self.inner.len()
                invariant
                    self.pos <= i <= self.inner@.len(),
                    whole == trees(self.inner@).skip(self.pos as int),
                    next_item::<B>(whole) == next_item::<B>(trees(self.inner@).skip(i as int)),
                decreases self.inner@.len() - i,
            {
                let ghost here = trees(self.inner@).skip(i as int);
                proof {
                    assert(here[0] == self.inner@[i as int]@);
                    assert(here.skip(1) =~= trees(self.inner@).skip(i + 1));
                }
                if B::from_value(&self.inner[i]).is_some() {
                    return None;
                }
                i += 1;
            }
            proof {
                assert(trees(self.inner@).skip(i as int) =~= Seq::<Tree>::empty());
            }
        }
        Some(self.page.request_for(B::kind(), &self.cont))
    }

    /// The next item of the sequence, or `None` where there is none.
    ///
    /// While the page of results that is held yields an item, that item is
    /// returned and nothing is asked of the server. Once the sequence has
    /// ended, `None` is returned, nothing is asked, and the sequence stays
    /// ended. Else the next page is asked for, once: it takes the place of
    /// the one that is held, and its first item, if it yields one, is
    /// returned. A request that fails, or a reply that cannot be read, ends
    /// the sequence.
    pub fn next(&mut self) -> (item: Option<B>)
        ensures
            final(self).page() == old(self).page(),
            match next_item::<B>(old(self).cursor().buffer) {
                Some(v) => {
                    &&& item_view(item) == Some(v)
                    &&& final(self).cursor() == old(self).cursor().advanced::<B>()
                },
                None => match old(self).cursor().token {
                    None => {
                        &&& item is None
                        &&& final(self).cursor().ended::<B>()
                        &&& final(self).cursor().buffer == Seq::<Tree>::empty()
                    },
                    Some(_) => exists|reply: Reply|
                        {
                            &&& old(self).page().site().gives(old(self).follow_up(), reply)
                            &&& item_view(item) == next_item::<B>(
                                #[trigger] refilled(B::resource(), reply).buffer,
                            )
                            &&& final(self).cursor() == refilled(
                                B::resource(),
                                reply,
                            ).advanced::<B>()
                        },
                },
            },
    {
        let ghost before = *self;
        match self.pop() {
            Some(item) => {
                return Some(item);
            },
            None => {},
        }
        proof {
            lemma_nothing_left::<B>(before.cursor().buffer);
        }
        if self.cont.is_none() {
            return None;
        }
        let ghost request = self.follow_up();
        proof {
            assert(request == before.follow_up());
        }
        self.fetch_next();
        let ghost reply = choose|reply: Reply|
            self.page().site().gives(request, reply) && self.cursor() == #[trigger] refilled(
                B::resource(),
                reply,
            );
        let item = self.pop();
        proof {
            assert(self.page().site().gives(request, reply) && item_view(item) == next_item::<B>(
                refilled(B::resource(), reply).buffer,
            ) && self.cursor() == refilled(B::resource(), reply).advanced::<B>());
        }
        item
    }
}

} // verus!
