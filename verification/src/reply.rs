//! What a response says: the redirect it reports, the page it describes, the
//! continuation it carries and the raw elements of a page of results.
use crate::error::{Failure, WikiError};
use crate::json::{
    child, field, fields, front, head, string_at, text_of, text_view, tree_of, trees, Json, Tree,
};
use crate::query::{pairs, token, IterElems, Pairs, Resource};
use vstd::prelude::*;

verus! {

/// One page of results: the raw elements, and the continuation that leads to
/// the next page.
pub type WikiResponse = (Vec<Json>, Option<IterElems>);

/// What is found under `key` in the `query` object of a response.
pub open spec fn query_part(q: Tree, key: Seq<char>) -> Option<Tree> {
    field(field(Some(q), "query"@), key)
}

/// The title that a response redirects to: the string `to` of the first
/// element of `query.redirects`.
pub open spec fn redirect_target(q: Tree) -> Option<Seq<char>> {
    text_of(field(head(query_part(q, "redirects"@)), "to"@))
}

/// The members of the object `query.pages`.
pub open spec fn pages_of(q: Tree) -> Option<Seq<(Seq<char>, Tree)>> {
    match query_part(q, "pages"@) {
        Some(Tree::Object(pages)) => Some(pages),
        _ => None,
    }
}

/// The first page object of a response. With several pages the first in the
/// order of the members is taken, whichever that is.
pub open spec fn first_page(q: Tree) -> Option<Tree> {
    match pages_of(q) {
        Some(pages) => if pages.len() > 0 {
            Some(pages[0].1)
        } else {
            None
        },
        None => None,
    }
}

/// The key of the first page object of a response.
pub open spec fn first_page_key(q: Tree) -> Option<Seq<char>> {
    match pages_of(q) {
        Some(pages) => if pages.len() > 0 {
            Some(pages[0].0)
        } else {
            None
        },
        None => None,
    }
}

/// A value that a response has to hold: its absence is a failure of the
/// path.
pub open spec fn required<T>(found: Option<T>) -> Result<T, Failure> {
    match found {
        Some(v) => Ok(v),
        None => Err(Failure::JsonPath),
    }
}

/// The value of a result that holds a string.
pub open spec fn text_result(r: Result<String, WikiError>) -> Result<Seq<char>, Failure> {
    match r {
        Ok(s) => Ok(s@),
        Err(e) => Err(e@),
    }
}

/// The decimal text of a number.
pub open spec fn number_of(node: Option<Tree>) -> Option<Seq<char>> {
    match node {
        Some(Tree::Number(n)) => Some(n),
        _ => None,
    }
}

/// The first element of `coordinates` in the first page, where it is an
/// object.
pub open spec fn coordinate_object(q: Tree) -> Option<Tree> {
    match head(field(first_page(q), "coordinates"@)) {
        Some(Tree::Object(members)) => Some(Tree::Object(members)),
        _ => None,
    }
}

/// The latitude and longitude that a response reports, as decimal texts:
/// none where the page has no coordinates, a failure where it has some that
/// are no numbers.
pub open spec fn coordinates_of(q: Tree) -> Result<Option<(Seq<char>, Seq<char>)>, Failure> {
    match coordinate_object(q) {
        None => Ok(None),
        Some(c) => match (number_of(c.member("lat"@)), number_of(c.member("lon"@))) {
            (Some(lat), Some(lon)) => Ok(Some((lat, lon))),
            _ => Err(Failure::JsonPath),
        },
    }
}

/// The strings found under `key` in those of `items` that have one, in
/// order.
pub open spec fn strings_under(items: Seq<Tree>, key: Seq<char>) -> Seq<Seq<char>>
    decreases items.len(),
{
    if items.len() == 0 {
        Seq::empty()
    } else {
        match text_of(items[0].member(key)) {
            Some(s) => seq![s] + strings_under(items.skip(1), key),
            None => strings_under(items.skip(1), key),
        }
    }
}

/// The characters of each of a list of strings.
pub open spec fn texts(list: Seq<String>) -> Seq<Seq<char>> {
    Seq::new(list.len(), |i: int| list[i]@)
}

/// The string that a value of a continuation is sent back as: a string as
/// it is, a number as its decimal text, a boolean as `1` or `0`. Nothing
/// else can be sent back.
pub open spec fn stringified(value: Tree) -> Option<Seq<char>> {
    match value {
        Tree::Text(s) => Some(s),
        Tree::Number(n) => Some(n),
        Tree::Bool(b) => Some(
            if b {
                "1"@
            } else {
                "0"@
            },
        ),
        _ => None,
    }
}

/// Whether each member of a `continue` object can be sent back.
pub open spec fn all_stringified(members: Seq<(Seq<char>, Tree)>) -> bool {
    forall|i: int| 0 <= i < members.len() ==> stringified(#[trigger] members[i].1) is Some
}

/// The pairs of a `continue` object: each key with its value as a string.
pub open spec fn continuation_pairs(members: Seq<(Seq<char>, Tree)>) -> Pairs {
    Seq::new(
        members.len(),
        |i: int|
            (
                members[i].0,
                match stringified(members[i].1) {
                    Some(s) => s,
                    None => Seq::empty(),
                },
            ),
    )
}

/// The continuation that a response carries: none without a `continue`
/// object, a failure where one of its values cannot be sent back.
pub open spec fn continuation(q: Tree) -> Result<Option<Pairs>, Failure> {
    match q.member("continue"@) {
        Some(Tree::Object(members)) => if all_stringified(members) {
            Ok(Some(continuation_pairs(members)))
        } else {
            Err(Failure::JsonPath)
        },
        _ => Ok(None),
    }
}

/// The values of the members of an object.
pub open spec fn values(members: Seq<(Seq<char>, Tree)>) -> Seq<Tree> {
    Seq::new(members.len(), |i: int| members[i].1)
}

/// The name of the array in a page object that holds the raw elements of a
/// resource. Images have none: each page object is one image.
pub open spec fn element_field(resource: Resource) -> Option<Seq<char>> {
    match resource {
        Resource::Images => None,
        Resource::References => Some("extlinks"@),
        Resource::Links => Some("links"@),
        Resource::LangLinks => Some("langlinks"@),
        Resource::Categories => Some("categories"@),
    }
}

/// The raw elements that the page objects of a response hold for a
/// resource.
pub open spec fn elements(resource: Resource, pages: Seq<(Seq<char>, Tree)>) -> Seq<Tree> {
    match element_field(resource) {
        None => values(pages),
        Some(name) => if pages.len() > 0 {
            match pages[0].1.member(name) {
                Some(Tree::Array(items)) => items,
                _ => Seq::empty(),
            }
        } else {
            Seq::empty()
        },
    }
}

/// The page of results that a response holds. Without page objects the
/// first response of a sequence fails, and a later one holds an empty page.
pub open spec fn page_of(resource: Resource, q: Tree, first: bool) -> Result<
    (Seq<Tree>, Option<Pairs>),
    Failure,
> {
    match pages_of(q) {
        None => if first {
            Err(Failure::JsonPath)
        } else {
            match continuation(q) {
                Ok(c) => Ok((Seq::empty(), c)),
                Err(f) => Err(f),
            }
        },
        Some(pages) => match continuation(q) {
            Ok(c) => Ok((elements(resource, pages), c)),
            Err(f) => Err(f),
        },
    }
}

/// The value of a page of results, or of the failure to read one.
pub open spec fn page_view(r: Result<WikiResponse, WikiError>) -> Result<
    (Seq<Tree>, Option<Pairs>),
    Failure,
> {
    match r {
        Ok(page) => Ok((trees(page.0@), token(page.1))),
        Err(e) => Err(e@),
    }
}

/// The title that the response redirects to, if it reports a redirect.
pub fn redirect(q: &Json) -> (r: Option<String>)
    ensures
        text_view(r) == redirect_target(q@),
{
    let query = child(Some(q), "query");
    string_at(child(front(child(query, "redirects")), "to"))
}

/// The members of the object `query.pages`.
pub fn get_pages(q: &Json) -> (r: Option<&Vec<(String, Json)>>)
    ensures
        match r {
            Some(pages) => pages_of(q@) == Some(fields(pages@)),
            None => pages_of(q@) is None,
        },
{
    match child(child(Some(q), "query"), "pages") {
        Some(node) => node.as_object(),
        None => None,
    }
}

/// The first page object of the response.
pub fn get_first_page(q: &Json) -> (r: Option<&Json>)
    ensures
        tree_of(r) == first_page(q@),
{
    match get_pages(q) {
        Some(pages) => if pages.len() > 0 {
            Some(&pages[0].1)
        } else {
            None
        },
        None => None,
    }
}

fn demand(found: Option<String>) -> (r: Result<String, WikiError>)
    ensures
        text_result(r) == required(text_view(found)),
{
    match found {
        Some(s) => Ok(s),
        None => Err(WikiError::JSONPathError),
    }
}

/// The key of the first page object: the identifier of the page.
pub fn pageid_of(q: &Json) -> (r: Result<String, WikiError>)
    ensures
        text_result(r) == required(first_page_key(q@)),
{
    match get_pages(q) {
        Some(pages) => if pages.len() > 0 {
            Ok(pages[0].0.clone())
        } else {
            Err(WikiError::JSONPathError)
        },
        None => Err(WikiError::JSONPathError),
    }
}

/// The title of the first page object.
pub fn title_of(q: &Json) -> (r: Result<String, WikiError>)
    ensures
        text_result(r) == required(text_of(field(first_page(q@), "title"@))),
{
    demand(string_at(child(get_first_page(q), "title")))
}

/// The extract of the first page object: the text of the article, or its
/// summary.
pub fn extract_of(q: &Json) -> (r: Result<String, WikiError>)
    ensures
        text_result(r) == required(text_of(field(first_page(q@), "extract"@))),
{
    demand(string_at(child(get_first_page(q), "extract")))
}

/// The rendered text of the first revision of the first page object.
pub fn html_of(q: &Json) -> (r: Result<String, WikiError>)
    ensures
        text_result(r) == required(
            text_of(field(head(field(first_page(q@), "revisions"@)), "*"@)),
        ),
{
    demand(string_at(child(front(child(get_first_page(q), "revisions")), "*")))
}

fn number_at(node: Option<&Json>) -> (r: Option<String>)
    ensures
        text_view(r) == number_of(tree_of(node)),
{
    match node {
        Some(Json::Number(n)) => Some(n.clone()),
        _ => None,
    }
}

/// The value of coordinates that may be absent, or of a failure.
pub open spec fn coordinates_view(r: Result<Option<(String, String)>, WikiError>) -> Result<
    Option<(Seq<char>, Seq<char>)>,
    Failure,
> {
    match r {
        Ok(Some(c)) => Ok(Some((c.0@, c.1@))),
        Ok(None) => Ok(None),
        Err(e) => Err(e@),
    }
}

/// The latitude and longitude of the first page object, each as the decimal
/// text of the number in the response.
pub fn read_coordinates(q: &Json) -> (r: Result<Option<(String, String)>, WikiError>)
    ensures
        coordinates_view(r) == coordinates_of(q@),
{
    let c = match front(child(get_first_page(q), "coordinates")) {
        Some(c) => c,
        None => return Ok(None),
    };
    if c.as_object().is_none() {
        return Ok(None);
    }
    match (number_at(c.get("lat")), number_at(c.get("lon"))) {
        (Some(lat), Some(lon)) => Ok(Some((lat, lon))),
        _ => Err(WikiError::JSONPathError),
    }
}

/// The strings under `key` in those elements of `items` that have one.
pub fn collect_strings(items: &Vec<Json>, key: &str) -> (list: Vec<String>)
    ensures
        texts(list@) == strings_under(trees(items@), key@),
{
    let mut list: Vec<String> = Vec::new();
    let mut i: usize = 0;
    proof {
        assert(trees(items@).skip(0) =~= trees(items@));
    }
    while i < items.len()
        invariant
            i <= items.len(),
            texts(list@) + strings_under(trees(items@).skip(i as int), key@) =~= strings_under(
                trees(items@),
                key@,
            ),
        decreases items.len() - i,
    {
        let ghost before = texts(list@);
        proof {
            let rest = trees(items@).skip(i as int);
            assert(rest[0] == items@[i as int]@);
            assert(rest.skip(1) =~= trees(items@).skip(i + 1));
        }
        match string_at(child(Some(&items[i]), key)) {
            Some(s) => {
                list.push(s);
                proof {
                    assert(texts(list@) =~= before + seq![s@]);
                }
            },
            None => {},
        }
        i += 1;
    }
    proof {
        assert(trees(items@).skip(items@.len() as int) =~= Seq::<Tree>::empty());
        assert(texts(list@) =~= strings_under(trees(items@), key@));
    }
    list
}

/// The strings under `key` in the elements of the array `inner` of the
/// object `outer` of a response. Without that array the response fails.
pub open spec fn listing(q: Tree, outer: Seq<char>, inner: Seq<char>, key: Seq<char>) -> Result<
    Seq<Seq<char>>,
    Failure,
> {
    match field(field(Some(q), outer), inner) {
        Some(Tree::Array(items)) => Ok(strings_under(items, key)),
        _ => Err(Failure::JsonPath),
    }
}

/// The value of a list of strings, or of a failure.
pub open spec fn list_view(r: Result<Vec<String>, WikiError>) -> Result<Seq<Seq<char>>, Failure> {
    match r {
        Ok(list) => Ok(texts(list@)),
        Err(e) => Err(e@),
    }
}

/// Reads the strings under `key` in the elements of the array `inner` of
/// the object `outer`.
pub fn list_strings(q: &Json, outer: &str, inner: &str, key: &str) -> (r: Result<
    Vec<String>,
    WikiError,
>)
    ensures
        list_view(r) == listing(q@, outer@, inner@, key@),
{
    match child(child(Some(q), outer), inner) {
        Some(node) => match node.as_array() {
            Some(items) => Ok(collect_strings(items, key)),
            None => Err(WikiError::JSONPathError),
        },
        None => Err(WikiError::JSONPathError),
    }
}

/// The languages among `items`: the code and the name of each element that
/// has both, in order.
pub open spec fn language_pairs(items: Seq<Tree>) -> Pairs
    decreases items.len(),
{
    if items.len() == 0 {
        Seq::empty()
    } else {
        match (text_of(items[0].member("code"@)), text_of(items[0].member("*"@))) {
            (Some(code), Some(name)) => seq![(code, name)] + language_pairs(items.skip(1)),
            _ => language_pairs(items.skip(1)),
        }
    }
}

/// The languages that a response lists under `query.languages`.
pub open spec fn languages_of(q: Tree) -> Result<Pairs, Failure> {
    match query_part(q, "languages"@) {
        Some(Tree::Array(items)) => Ok(language_pairs(items)),
        _ => Err(Failure::JsonPath),
    }
}

/// The value of a list of pairs, or of a failure.
pub open spec fn pairs_view(r: Result<IterElems, WikiError>) -> Result<Pairs, Failure> {
    match r {
        Ok(list) => Ok(pairs(list@)),
        Err(e) => Err(e@),
    }
}

/// Reads the languages that a response lists: the code and the name of
/// each.
pub fn read_languages(q: &Json) -> (r: Result<IterElems, WikiError>)
    ensures
        pairs_view(r) == languages_of(q@),
{
    let items = match child(child(Some(q), "query"), "languages") {
        Some(node) => match node.as_array() {
            Some(items) => items,
            None => return Err(WikiError::JSONPathError),
        },
        None => return Err(WikiError::JSONPathError),
    };
    let mut list: IterElems = Vec::new();
    let mut i: usize = 0;
    proof {
        assert(trees(items@).skip(0) =~= trees(items@));
    }
    while i < items.len()
        invariant
            i <= items.len(),
            pairs(list@) + language_pairs(trees(items@).skip(i as int)) =~= language_pairs(
                trees(items@),
            ),
        decreases items.len() - i,
    {
        let ghost before = pairs(list@);
        proof {
            let rest = trees(items@).skip(i as int);
            assert(rest[0] == items@[i as int]@);
            assert(rest.skip(1) =~= trees(items@).skip(i + 1));
        }
        let code = string_at(child(Some(&items[i]), "code"));
        let name = string_at(child(Some(&items[i]), "*"));
        match (code, name) {
            (Some(code), Some(name)) => {
                list.push((code, name));
                proof {
                    assert(pairs(list@) =~= before + seq![(code@, name@)]);
                }
            },
            _ => {},
        }
        i += 1;
    }
    proof {
        assert(trees(items@).skip(items@.len() as int) =~= Seq::<Tree>::empty());
        assert(pairs(list@) =~= language_pairs(trees(items@)));
    }
    Ok(list)
}

fn stringify(value: &Json) -> (r: Option<String>)
    ensures
        text_view(r) == stringified(value@),
{
    match value {
        Json::Text(s) => Some(s.clone()),
        Json::Number(n) => Some(n.clone()),
        Json::Bool(b) => if *b {
            Some("1".to_owned())
        } else {
            Some("0".to_owned())
        },
        _ => None,
    }
}

/// The value of a continuation that may be absent, or of a failure.
pub open spec fn continuation_view(r: Result<Option<IterElems>, WikiError>) -> Result<
    Option<Pairs>,
    Failure,
> {
    match r {
        Ok(c) => Ok(token(c)),
        Err(e) => Err(e@),
    }
}

/// Reads the `continue` object of a response: the parameters with which the
/// next page of results is asked for.
pub fn parse_cont(q: &Json) -> (r: Result<Option<IterElems>, WikiError>)
    ensures
        continuation_view(r) == continuation(q@),
{
    let members = match q.get("continue") {
        Some(node) => match node.as_object() {
            Some(members) => members,
            None => return Ok(None),
        },
        None => return Ok(None),
    };
    let mut cont: IterElems = Vec::new();
    let mut i: usize = 0;
    while i < members.len()
        invariant
            i <= members.len(),
            q@.member("continue"@) == Some(Tree::Object(fields(members@))),
            pairs(cont@) =~= continuation_pairs(fields(members@)).take(i as int),
            forall|k: int| 0 <= k < i ==> stringified(#[trigger] fields(members@)[k].1) is Some,
        decreases members.len() - i,
    {
        let ghost before = pairs(cont@);
        match stringify(&members[i].1) {
            Some(value) => {
                cont.push((members[i].0.clone(), value));
                proof {
                    let all = continuation_pairs(fields(members@));
                    assert(pairs(cont@) =~= before.push(all[i as int]));
                    assert(all.take(i + 1) =~= all.take(i as int).push(all[i as int]));
                }
            },
            None => {
                proof {
                    assert(stringified(fields(members@)[i as int].1) is None);
                }
                return Err(WikiError::JSONPathError);
            },
        }
        i += 1;
    }
    proof {
        let all = continuation_pairs(fields(members@));
        assert(all.take(members@.len() as int) =~= all);
    }
    Ok(Some(cont))
}

fn copy_values(members: &Vec<(String, Json)>) -> (out: Vec<Json>)
    ensures
        trees(out@) == values(fields(members@)),
{
    let mut out: Vec<Json> = Vec::new();
    let mut i: usize = 0;
    while i < members.len()
        invariant
            i <= members.len(),
            out@.len() == i,
            forall|k: int| 0 <= k < i ==> (#[trigger] out@[k])@ == members@[k].1@,
        decreases members.len() - i,
    {
        out.push(members[i].1.copy());
        i += 1;
    }
    assert(trees(out@) =~= values(fields(members@)));
    out
}

fn copy_items(items: &Vec<Json>) -> (out: Vec<Json>)
    ensures
        trees(out@) == trees(items@),
{
    let mut out: Vec<Json> = Vec::new();
    let mut i: usize = 0;
    while i < items.len()
        invariant
            i <= items.len(),
            out@.len() == i,
            forall|k: int| 0 <= k < i ==> (#[trigger] out@[k])@ == items@[k]@,
        decreases items.len() - i,
    {
        out.push(items[i].copy());
        i += 1;
    }
    assert(trees(out@) =~= trees(items@));
    out
}

fn field_of(resource: Resource) -> (name: Option<&'static str>)
    ensures
        match name {
            Some(n) => element_field(resource) == Some(n@),
            None => element_field(resource) is None,
        },
{
    match resource {
        Resource::Images => None,
        Resource::References => Some("extlinks"),
        Resource::Links => Some("links"),
        Resource::LangLinks => Some("langlinks"),
        Resource::Categories => Some("categories"),
    }
}

fn read_elements(resource: Resource, pages: &Vec<(String, Json)>) -> (out: Vec<Json>)
    ensures
        trees(out@) == elements(resource, fields(pages@)),
{
    match field_of(resource) {
        None => copy_values(pages),
        Some(name) => {
            if pages.len() > 0 {
                match pages[0].1.get(name) {
                    Some(node) => match node.as_array() {
                        Some(items) => copy_items(items),
                        None => {
                            assert(trees(Seq::<Json>::empty()) =~= Seq::<Tree>::empty());
                            Vec::new()
                        },
                    },
                    None => {
                        assert(trees(Seq::<Json>::empty()) =~= Seq::<Tree>::empty());
                        Vec::new()
                    },
                }
            } else {
                assert(trees(Seq::<Json>::empty()) =~= Seq::<Tree>::empty());
                Vec::new()
            }
        },
    }
}

/// Reads one page of results of a resource from a response: the raw
/// elements and the continuation. `first` says whether the response answers
/// the first request of a sequence.
pub fn read_page(resource: Resource, q: &Json, first: bool) -> (r: Result<
    WikiResponse,
    WikiError,
>)
    ensures
        page_view(r) == page_of(resource, q@, first),
{
    let items = match get_pages(q) {
        Some(pages) => read_elements(resource, pages),
        None => {
            if first {
                return Err(WikiError::JSONPathError);
            }
            assert(trees(Seq::<Json>::empty()) =~= Seq::<Tree>::empty());
            Vec::new()
        },
    };
    match parse_cont(q) {
        Ok(cont) => Ok((items, cont)),
        Err(e) => Err(e),
    }
}

} // verus!
