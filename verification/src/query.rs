//! The requests that are sent, as lists of parameters.
use crate::page::{Handle, TitlePageId};
use vstd::prelude::*;

verus! {

/// Request parameters, or the pairs of a continuation: names and values in
/// order.
pub type IterElems = Vec<(String, String)>;

/// The value of a list of parameters.
pub type Pairs = Seq<(Seq<char>, Seq<char>)>;

/// The names and values of a list of parameters.
pub open spec fn pairs(params: Seq<(String, String)>) -> Pairs {
    Seq::new(params.len(), |i: int| (params[i].0@, params[i].1@))
}

/// The names and values of a continuation that may be absent.
pub open spec fn token(cont: Option<IterElems>) -> Option<Pairs> {
    match cont {
        Some(c) => Some(pairs(c@)),
        None => None,
    }
}

/// The parameters that every query carries: the format, the action and the
/// page's own parameter.
pub open spec fn common(handle: Handle) -> Pairs {
    seq![("format"@, "json"@), ("action"@, "query"@), handle.param()]
}

/// The operations on a page that follow redirects.
#[derive(Clone, Copy, Debug, PartialEq, Eq, Structural)]
pub enum Operation {
    PageId,
    Title,
    Content,
    HtmlContent,
    Summary,
    Coordinates,
}

impl Operation {
    /// The parameters that are particular to the operation. Each ends with
    /// the hint that asks the server to follow redirects.
    pub open spec fn fixed(self) -> Pairs {
        match self {
            Operation::PageId | Operation::Title => seq![
                ("prop"@, "info|pageprops"@),
                ("inprop"@, "url"@),
                ("ppprop"@, "disambiguation"@),
                ("redirects"@, ""@),
            ],
            Operation::Content => seq![
                ("prop"@, "extracts|revisions"@),
                ("explaintext"@, ""@),
                ("rvprop"@, "ids"@),
                ("redirects"@, ""@),
            ],
            Operation::HtmlContent => seq![
                ("prop"@, "revisions"@),
                ("rvprop"@, "content"@),
                ("rvlimit"@, "1"@),
                ("rvparse"@, ""@),
                ("redirects"@, ""@),
            ],
            Operation::Summary => seq![
                ("prop"@, "extracts"@),
                ("explaintext"@, ""@),
                ("exintro"@, ""@),
                ("redirects"@, ""@),
            ],
            Operation::Coordinates => seq![
                ("prop"@, "coordinates"@),
                ("colimit"@, "max"@),
                ("redirects"@, ""@),
            ],
        }
    }

    /// The whole request of the operation on a page.
    pub open spec fn request(self, handle: Handle) -> Pairs {
        self.fixed() + common(handle)
    }
}

/// The collections of a page that are fetched in pages of results.
#[derive(Clone, Copy, Debug, PartialEq, Eq, Structural)]
pub enum Resource {
    Images,
    References,
    Links,
    LangLinks,
    Categories,
}

impl Resource {
    /// The parameters that are particular to the resource, `limit` being the
    /// size of a page of results.
    pub open spec fn fixed(self, limit: Seq<char>) -> Pairs {
        match self {
            Resource::Images => seq![
                ("generator"@, "images"@),
                ("gimlimit"@, limit),
                ("prop"@, "imageinfo"@),
                ("iiprop"@, "url"@),
            ],
            Resource::References => seq![("prop"@, "extlinks"@), ("ellimit"@, limit)],
            Resource::Links => seq![
                ("prop"@, "links"@),
                ("plnamespace"@, "0"@),
                ("ellimit"@, limit),
            ],
            Resource::LangLinks => seq![("prop"@, "langlinks"@), ("lllimit"@, limit)],
            Resource::Categories => seq![("prop"@, "categories"@), ("cllimit"@, limit)],
        }
    }

    /// What the request ends with: the pairs of the continuation as the
    /// server gave them or, on the first request, the marker that starts a
    /// sequence.
    pub open spec fn resume(cont: Option<Pairs>) -> Pairs {
        match cont {
            Some(c) => c,
            None => seq![("continue"@, ""@)],
        }
    }

    /// The whole request for one page of results.
    pub open spec fn request(self, limit: Seq<char>, handle: Handle, cont: Option<Pairs>) -> Pairs {
        self.fixed(limit) + common(handle) + Self::resume(cont)
    }
}

/// A parameter with the given name and value.
pub fn pair(name: &str, value: &str) -> (p: (String, String))
    ensures
        p.0@ == name@,
        p.1@ == value@,
{
    (name.to_owned(), value.to_owned())
}

/// Appends the parameters that every query carries.
fn push_common(params: &mut IterElems, identifier: &TitlePageId)
    ensures
        pairs(final(params)@) == pairs(old(params)@) + common(identifier@),
{
    params.push(pair("format", "json"));
    params.push(pair("action", "query"));
    params.push(identifier.query_param());
    assert(pairs(params@) =~= pairs(old(params)@) + common(identifier@));
}

/// The request of an operation on a page.
pub fn operation_params(op: Operation, identifier: &TitlePageId) -> (params: IterElems)
    ensures
        pairs(params@) == op.request(identifier@),
{
    let mut params: IterElems = Vec::new();
    match op {
        Operation::PageId | Operation::Title => {
            params.push(pair("prop", "info|pageprops"));
            params.push(pair("inprop", "url"));
            params.push(pair("ppprop", "disambiguation"));
        },
        Operation::Content => {
            params.push(pair("prop", "extracts|revisions"));
            params.push(pair("explaintext", ""));
            params.push(pair("rvprop", "ids"));
        },
        Operation::HtmlContent => {
            params.push(pair("prop", "revisions"));
            params.push(pair("rvprop", "content"));
            params.push(pair("rvlimit", "1"));
            params.push(pair("rvparse", ""));
        },
        Operation::Summary => {
            params.push(pair("prop", "extracts"));
            params.push(pair("explaintext", ""));
            params.push(pair("exintro", ""));
        },
        Operation::Coordinates => {
            params.push(pair("prop", "coordinates"));
            params.push(pair("colimit", "max"));
        },
    }
    params.push(pair("redirects", ""));
    assert(pairs(params@) =~= op.fixed());
    push_common(&mut params, identifier);
    params
}

/// The request for one page of results of a resource: for the first page
/// with the marker that starts a sequence, for a later one with the pairs of
/// the continuation, each as the server gave it.
pub fn resource_params(
    resource: Resource,
    limit: &str,
    identifier: &TitlePageId,
    cont: &Option<IterElems>,
) -> (params: IterElems)
    ensures
        pairs(params@) == resource.request(limit@, identifier@, token(*cont)),
{
    let mut params: IterElems = Vec::new();
    match resource {
        Resource::Images => {
            params.push(pair("generator", "images"));
            params.push(pair("gimlimit", limit));
            params.push(pair("prop", "imageinfo"));
            params.push(pair("iiprop", "url"));
        },
        Resource::References => {
            params.push(pair("prop", "extlinks"));
            params.push(pair("ellimit", limit));
        },
        Resource::Links => {
            params.push(pair("prop", "links"));
            params.push(pair("plnamespace", "0"));
            params.push(pair("ellimit", limit));
        },
        Resource::LangLinks => {
            params.push(pair("prop", "langlinks"));
            params.push(pair("lllimit", limit));
        },
        Resource::Categories => {
            params.push(pair("prop", "categories"));
            params.push(pair("cllimit", limit));
        },
    }
    assert(pairs(params@) =~= resource.fixed(limit@));
    push_common(&mut params, identifier);
    let ghost head = pairs(params@);
    match cont {
        None => {
            params.push(pair("continue", ""));
            assert(pairs(params@) =~= head + Resource::resume(None));
        },
        Some(c) => {
            let mut i: usize = 0;
            while i < c.len()
                invariant
                    i <= c.len(),
                    pairs(params@) =~= head + pairs(c@).take(i as int),
                decreases c.len() - i,
            {
                let ghost before = pairs(params@);
                params.push((c[i].0.clone(), c[i].1.clone()));
                proof {
                    assert(pairs(params@) =~= before.push(pairs(c@)[i as int]));
                    assert(pairs(c@).take(i + 1) =~= pairs(c@).take(i as int).push(
                        pairs(c@)[i as int],
                    ));
                }
                i += 1;
            }
            assert(pairs(c@).take(c.len() as int) =~= pairs(c@));
        },
    }
    params
}

} // verus!
