//! The JSON tree that responses are read from, and the paths into it.
use vstd::prelude::*;

verus! {

/// A JSON document held as plain values. Numbers are kept as their decimal
/// text; an object keeps its members in the order in which they are walked.
#[derive(Debug)]
pub enum Json {
    Null,
    Bool(bool),
    Number(String),
    Text(String),
    Array(Vec<Json>),
    Object(Vec<(String, Json)>),
}

/// The mathematical value of a [`Json`] document.
pub ghost enum Tree {
    Null,
    Bool(bool),
    Number(Seq<char>),
    Text(Seq<char>),
    Array(Seq<Tree>),
    Object(Seq<(Seq<char>, Tree)>),
}

/// The value found under `key` among `members`: that of the first member
/// with this key.
pub open spec fn lookup(members: Seq<(Seq<char>, Tree)>, key: Seq<char>) -> Option<Tree>
    decreases members.len(),
{
    if members.len() == 0 {
        None
    } else if members[0].0 == key {
        Some(members[0].1)
    } else {
        lookup(members.skip(1), key)
    }
}

impl Tree {
    /// The member `key` of an object; `None` for anything but an object
    /// that has it.
    pub open spec fn member(self, key: Seq<char>) -> Option<Tree> {
        match self {
            Tree::Object(members) => lookup(members, key),
            _ => None,
        }
    }

    /// The characters of a string.
    pub open spec fn text(self) -> Option<Seq<char>> {
        match self {
            Tree::Text(s) => Some(s),
            _ => None,
        }
    }

    /// The elements of an array.
    pub open spec fn items(self) -> Option<Seq<Tree>> {
        match self {
            Tree::Array(items) => Some(items),
            _ => None,
        }
    }

    /// The members of an object, in order.
    pub open spec fn members(self) -> Option<Seq<(Seq<char>, Tree)>> {
        match self {
            Tree::Object(members) => Some(members),
            _ => None,
        }
    }

    /// The first element of a non-empty array.
    pub open spec fn first(self) -> Option<Tree> {
        match self {
            Tree::Array(items) => if items.len() > 0 {
                Some(items[0])
            } else {
                None
            },
            _ => None,
        }
    }
}

/// `member` lifted to a tree that may be absent.
pub open spec fn field(node: Option<Tree>, key: Seq<char>) -> Option<Tree> {
    match node {
        Some(t) => t.member(key),
        None => None,
    }
}

/// `first` lifted to a tree that may be absent.
pub open spec fn head(node: Option<Tree>) -> Option<Tree> {
    match node {
        Some(t) => t.first(),
        None => None,
    }
}

/// `text` lifted to a tree that may be absent.
pub open spec fn text_of(node: Option<Tree>) -> Option<Seq<char>> {
    match node {
        Some(t) => t.text(),
        None => None,
    }
}

/// The trees of a sequence of documents.
pub open spec fn trees(items: Seq<Json>) -> Seq<Tree> {
    Seq::new(items.len(), |i: int| items[i]@)
}

/// The keys and trees of a sequence of object members.
pub open spec fn fields(members: Seq<(String, Json)>) -> Seq<(Seq<char>, Tree)> {
    Seq::new(members.len(), |i: int| (members[i].0@, members[i].1@))
}

/// The characters of a string that may be absent.
pub open spec fn text_view(found: Option<String>) -> Option<Seq<char>> {
    match found {
        Some(s) => Some(s@),
        None => None,
    }
}

/// The tree of a document that may be absent.
pub open spec fn tree_of(node: Option<&Json>) -> Option<Tree> {
    match node {
        Some(j) => Some(j@),
        None => None,
    }
}

/// The tree that a document stands for.
pub open spec fn tree(j: Json) -> Tree
    decreases j,
{
    match j {
        Json::Null => Tree::Null,
        Json::Bool(b) => Tree::Bool(b),
        Json::Number(n) => Tree::Number(n@),
        Json::Text(s) => Tree::Text(s@),
        Json::Array(items) => Tree::Array(
            Seq::new(
                items@.len(),
                |i: int|
                    if 0 <= i < items@.len() {
                        tree(items@[i])
                    } else {
                        Tree::Null
                    },
            ),
        ),
        Json::Object(members) => Tree::Object(
            Seq::new(
                members@.len(),
                |i: int|
                    if 0 <= i < members@.len() {
                        (members@[i].0@, tree(members@[i].1))
                    } else {
                        (Seq::<char>::empty(), Tree::Null)
                    },
            ),
        ),
    }
}

impl View for Json {
    type V = Tree;

    open spec fn view(&self) -> Tree {
        tree(*self)
    }
}

/// An array's tree holds the trees of its elements.
pub proof fn lemma_array_view(items: Vec<Json>)
    ensures
        Json::Array(items)@ == Tree::Array(trees(items@)),
{
    assert(Json::Array(items)@->Array_0 =~= trees(items@));
}

/// An object's tree holds the keys and trees of its members.
pub proof fn lemma_object_view(members: Vec<(String, Json)>)
    ensures
        Json::Object(members)@ == Tree::Object(fields(members@)),
{
    assert(Json::Object(members)@->Object_0 =~= fields(members@));
}

impl Json {
    /// The elements, if this is an array.
    pub fn as_array(&self) -> (r: Option<&Vec<Json>>)
        ensures
            match r {
                Some(v) => self@.items() == Some(trees(v@)),
                None => self@.items() is None,
            },
    {
        match self {
            Json::Array(items) => {
                proof {
                    lemma_array_view(*items);
                }
                Some(items)
            },
            _ => None,
        }
    }

    /// The members, if this is an object.
    pub fn as_object(&self) -> (r: Option<&Vec<(String, Json)>>)
        ensures
            match r {
                Some(m) => self@.members() == Some(fields(m@)),
                None => self@.members() is None,
            },
    {
        match self {
            Json::Object(members) => {
                proof {
                    lemma_object_view(*members);
                }
                Some(members)
            },
            _ => None,
        }
    }

    /// The characters, if this is a string.
    pub fn as_str(&self) -> (r: Option<&str>)
        ensures
            match r {
                Some(s) => self@.text() == Some(s@),
                None => self@.text() is None,
            },
    {
        match self {
            Json::Text(s) => Some(s.as_str()),
            _ => None,
        }
    }

    /// The member `key`, if this is an object that has one.
    pub fn get(&self, key: &str) -> (r: Option<&Json>)
        ensures
            tree_of(r) == self@.member(key@),
    {
        match self.as_object() {
            None => None,
            Some(members) => {
                let wanted = key.to_owned();
                let mut i: usize = 0;
                proof {
                    assert(fields(members@).skip(0) =~= fields(members@));
                }
                while i < members.len()
                    invariant
                        i <= members.len(),
                        wanted@ == key@,
                        self@.member(key@) == lookup(fields(members@), key@),
                        lookup(fields(members@), key@) == lookup(fields(members@).skip(i as int), key@),
                    decreases members.len() - i,
                {
                    proof {
                        let rest = fields(members@).skip(i as int);
                        assert(rest.len() > 0);
                        assert(rest[0] == (members@[i as int].0@, members@[i as int].1@));
                        assert(rest.skip(1) =~= fields(members@).skip(i + 1));
                    }
                    if members[i].0 == wanted {
                        proof {
                            let rest = fields(members@).skip(i as int);
                            assert(lookup(rest, key@) == Some(members@[i as int].1@));
                        }
                        return Some(&members[i].1);
                    }
                    i += 1;
                }
                None
            },
        }
    }

    /// The first element, if this is an array that has one.
    pub fn first(&self) -> (r: Option<&Json>)
        ensures
            tree_of(r) == self@.first(),
    {
        match self.as_array() {
            None => None,
            Some(items) => if items.len() > 0 {
                Some(&items[0])
            } else {
                None
            },
        }
    }
}

impl Json {
    /// A copy of the whole document.
    pub fn copy(&self) -> (c: Json)
        ensures
            c@ == self@,
        decreases self,
    {
        match self {
            Json::Null => Json::Null,
            Json::Bool(b) => Json::Bool(*b),
            Json::Number(n) => Json::Number(n.clone()),
            Json::Text(s) => Json::Text(s.clone()),
            Json::Array(items) => {
                let mut out: Vec<Json> = Vec::new();
                let mut i: usize = 0;
                while i < items.len()
                    invariant
                        i <= items.len(),
                        out@.len() == i,
                        *self == Json::Array(*items),
                        forall|k: int| 0 <= k < i ==> (#[trigger] out@[k])@ == items@[k]@,
                    decreases items.len() - i,
                {
                    proof {
                        assert(decreases_to!(*self => self->Array_0));
                        assert(decreases_to!(self->Array_0 => self->Array_0@));
                        assert(decreases_to!(self->Array_0@ => self->Array_0@[i as int]));
                    }
                    let c = items[i].copy();
                    out.push(c);
                    i += 1;
                }
                proof {
                    lemma_array_view(out);
                    lemma_array_view(*items);
                    assert(trees(out@) =~= trees(items@));
                }
                Json::Array(out)
            },
            Json::Object(members) => {
                let mut out: Vec<(String, Json)> = Vec::new();
                let mut i: usize = 0;
                while i < members.len()
                    invariant
                        i <= members.len(),
                        out@.len() == i,
                        *self == Json::Object(*members),
                        forall|k: int|
                            0 <= k < i ==> (#[trigger] out@[k]).0@ == members@[k].0@ && out@[k].1@
                                == members@[k].1@,
                    decreases members.len() - i,
                {
                    proof {
                        assert(decreases_to!(*self => self->Object_0));
                        assert(decreases_to!(self->Object_0 => self->Object_0@));
                        assert(decreases_to!(self->Object_0@ => self->Object_0@[i as int]));
                        assert(decreases_to!(self->Object_0@[i as int] => self->Object_0@[i as int].1));
                    }
                    let c = members[i].1.copy();
                    out.push((members[i].0.clone(), c));
                    i += 1;
                }
                proof {
                    lemma_object_view(out);
                    lemma_object_view(*members);
                    assert(fields(out@) =~= fields(members@));
                }
                Json::Object(out)
            },
        }
    }
}

impl Clone for Json {
    fn clone(&self) -> (c: Json)
        ensures
            c@ == self@,
    {
        self.copy()
    }
}

/// The member `key` of a document that may be absent.
pub fn child<'a>(node: Option<&'a Json>, key: &str) -> (r: Option<&'a Json>)
    ensures
        tree_of(r) == field(tree_of(node), key@),
{
    match node {
        Some(j) => j.get(key),
        None => None,
    }
}

/// The first element of a document that may be absent.
pub fn front<'a>(node: Option<&'a Json>) -> (r: Option<&'a Json>)
    ensures
        tree_of(r) == head(tree_of(node)),
{
    match node {
        Some(j) => j.first(),
        None => None,
    }
}

/// The characters of a document that may be absent, as an owned string.
pub fn string_at(node: Option<&Json>) -> (r: Option<String>)
    ensures
        text_view(r) == text_of(tree_of(node)),
{
    match node {
        Some(j) => match j.as_str() {
            Some(s) => Some(s.to_owned()),
            None => None,
        },
        None => None,
    }
}

} // verus!
