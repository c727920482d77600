//! Small operations on strings, stated over their characters.
use vstd::prelude::*;
use vstd::std_specs::iter::IteratorSpec;
use vstd::string::*;

verus! {

/// Whether `text` begins with `prefix`.
pub fn starts_with(text: &str, prefix: &str) -> (b: bool)
    ensures
        b == prefix@.is_prefix_of(text@),
{
    let n = prefix.unicode_len();
    if n > text.unicode_len() {
        return false;
    }
    let start = text.substring_char(0, n).to_owned();
    let wanted = prefix.to_owned();
    start == wanted
}

/// What follows `prefix` in `text`, where `text` begins with it.
pub fn strip_prefix(text: &str, prefix: &str) -> (rest: Option<String>)
    ensures
        match rest {
            Some(r) => prefix@.is_prefix_of(text@) && r@ == text@.skip(prefix@.len() as int),
            None => !prefix@.is_prefix_of(text@),
        },
{
    if starts_with(text, prefix) {
        let n = prefix.unicode_len();
        let m = text.unicode_len();
        Some(text.substring_char(n, m).to_owned())
    } else {
        None
    }
}

/// The characters of `text`, one by one.
pub fn chars_of(text: &str) -> (chars: Vec<char>)
    ensures
        chars@ == text@,
{
    let mut chars: Vec<char> = Vec::new();
    let mut rest = text.chars();
    let mut done = false;
    while !done
        invariant
            chars@ + rest.remaining() =~= text@,
            done ==> rest.remaining().len() == 0,
        decreases
            text@.len() - chars@.len() + (if done {
                0int
            } else {
                1int
            }),
    {
        match rest.next() {
            Some(c) => {
                chars.push(c);
            },
            None => {
                done = true;
            },
        }
    }
    chars
}

/// Whether `needle` stands in `hay` at the position `at`.
pub open spec fn occurs_at(hay: Seq<char>, needle: Seq<char>, at: int) -> bool {
    0 <= at && at + needle.len() <= hay.len() && hay.subrange(at, at + needle.len()) == needle
}

/// The first position from `from` on at which `needle` stands in `hay`.
pub open spec fn first_occurrence(hay: Seq<char>, needle: Seq<char>, from: int) -> Option<int>
    decreases hay.len() - from + 1,
{
    if from < 0 || from + needle.len() > hay.len() {
        None
    } else if occurs_at(hay, needle, from) {
        Some(from)
    } else {
        first_occurrence(hay, needle, from + 1)
    }
}

/// A position that was found, as a number.
pub open spec fn position(found: Option<usize>) -> Option<int> {
    match found {
        Some(at) => Some(at as int),
        None => None,
    }
}

fn stands_at(hay: &Vec<char>, needle: &Vec<char>, at: usize) -> (b: bool)
    requires
        at + needle@.len() <= hay@.len(),
    ensures
        b == occurs_at(hay@, needle@, at as int),
{
    let size = hay.len();
    let mut k: usize = 0;
    while k < needle.len()
        invariant
            k <= needle@.len(),
            size == hay@.len(),
            at + needle@.len() <= hay@.len(),
            hay@.subrange(at as int, at + k) =~= needle@.take(k as int),
        decreases needle@.len() - k,
    {
        if hay[at + k] != needle[k] {
            proof {
                let part = hay@.subrange(at as int, at + needle@.len());
                assert(part[k as int] != needle@[k as int]);
            }
            return false;
        }
        proof {
            assert(hay@.subrange(at as int, at + k + 1) =~= hay@.subrange(at as int, at + k).push(
                hay@[at + k],
            ));
            assert(needle@.take(k + 1) =~= needle@.take(k as int).push(needle@[k as int]));
        }
        k += 1;
    }
    proof {
        assert(needle@.take(needle@.len() as int) =~= needle@);
    }
    true
}

/// Finds the first position from `from` on at which `needle` stands in
/// `hay`.
pub fn find(hay: &Vec<char>, needle: &Vec<char>, from: usize) -> (found: Option<usize>)
    ensures
        position(found) == first_occurrence(hay@, needle@, from as int),
{
    if needle.len() > hay.len() || from > hay.len() - needle.len() {
        return None;
    }
    let last = hay.len() - needle.len();
    let mut at: usize = from;
    loop
        invariant
            from <= at <= last,
            last == hay@.len() - needle@.len(),
            first_occurrence(hay@, needle@, from as int) == first_occurrence(
                hay@,
                needle@,
                at as int,
            ),
        decreases last - at,
    {
        if stands_at(hay, needle, at) {
            return Some(at);
        }
        if at == last {
            assert(first_occurrence(hay@, needle@, at + 1) is None);
            return None;
        }
        at += 1;
    }
}

/// The header that opens the section `title` in the text of an article.
pub open spec fn section_header(title: Seq<char>) -> Seq<char> {
    "== "@ + title + " =="@
}

/// The text of the section `title` of an article: what stands between the
/// first header of that title and the next `==`, or the end of the text.
/// `None` where the text has no such header.
pub open spec fn section_text(content: Seq<char>, title: Seq<char>) -> Option<Seq<char>> {
    match first_occurrence(content, section_header(title), 0) {
        None => None,
        Some(at) => {
            let start = at + section_header(title).len();
            match first_occurrence(content, "=="@, start) {
                Some(end) => Some(content.subrange(start, end)),
                None => Some(content.subrange(start, content.len() as int)),
            }
        },
    }
}

/// A position that was found lies where the text can hold what was looked
/// for.
pub proof fn lemma_occurrence_bounds(hay: Seq<char>, needle: Seq<char>, from: int)
    requires
        0 <= from,
    ensures
        match first_occurrence(hay, needle, from) {
            Some(at) => from <= at && at + needle.len() <= hay.len(),
            None => true,
        },
    decreases hay.len() - from + 1,
{
    if from + needle.len() <= hay.len() && !occurs_at(hay, needle, from) {
        lemma_occurrence_bounds(hay, needle, from + 1);
    }
}

/// Cuts the section `title` out of the text of an article.
pub fn section_of(content: &str, title: &str) -> (section: Option<String>)
    ensures
        crate::json::text_view(section) == section_text(content@, title@),
{
    let mut header = "== ".to_owned();
    header.append(title);
    header.append(" ==");
    let hay = chars_of(content);
    let needle = chars_of(header.as_str());
    let bars = chars_of("==");
    let size = hay.len();
    proof {
        assert(needle@ =~= section_header(title@));
        lemma_occurrence_bounds(hay@, needle@, 0);
    }
    match find(&hay, &needle, 0) {
        None => None,
        Some(at) => {
            let start = at + needle.len();
            proof {
                lemma_occurrence_bounds(hay@, bars@, start as int);
            }
            let end = match find(&hay, &bars, start) {
                Some(end) => end,
                None => hay.len(),
            };
            Some(content.substring_char(start, end).to_owned())
        },
    }
}

/// The character that writes a decimal digit.
pub open spec fn digit(d: nat) -> char {
    if d == 0 {
        '0'
    } else if d == 1 {
        '1'
    } else if d == 2 {
        '2'
    } else if d == 3 {
        '3'
    } else if d == 4 {
        '4'
    } else if d == 5 {
        '5'
    } else if d == 6 {
        '6'
    } else if d == 7 {
        '7'
    } else if d == 8 {
        '8'
    } else {
        '9'
    }
}

/// The decimal numeral of `n`, without leading zeros.
pub open spec fn decimal(n: nat) -> Seq<char>
    decreases n,
{
    if n < 10 {
        seq![digit(n)]
    } else {
        decimal(n / 10).push(digit(n % 10))
    }
}

fn digit_text(d: u64) -> (s: &'static str)
    requires
        d < 10,
    ensures
        s@ == seq![digit(d as nat)],
{
    proof {
        reveal_strlit("0");
        reveal_strlit("1");
        reveal_strlit("2");
        reveal_strlit("3");
        reveal_strlit("4");
        reveal_strlit("5");
        reveal_strlit("6");
        reveal_strlit("7");
        reveal_strlit("8");
        reveal_strlit("9");
    }
    let s = if d == 0 {
        "0"
    } else if d == 1 {
        "1"
    } else if d == 2 {
        "2"
    } else if d == 3 {
        "3"
    } else if d == 4 {
        "4"
    } else if d == 5 {
        "5"
    } else if d == 6 {
        "6"
    } else if d == 7 {
        "7"
    } else if d == 8 {
        "8"
    } else {
        "9"
    };
    assert(s@ =~= seq![digit(d as nat)]);
    s
}

/// Writes `n` in decimal.
pub fn decimal_string(n: u64) -> (s: String)
    ensures
        s@ == decimal(n as nat),
    decreases n,
{
    if n < 10 {
        digit_text(n).to_owned()
    } else {
        let mut s = decimal_string(n / 10);
        s.append(digit_text(n % 10));
        assert(s@ =~= decimal(n as nat));
        s
    }
}

} // verus!
