use std::collections::HashSet;

use wikipedia::error::WikiError;
use wikipedia::http::HttpClient;
use wikipedia::Wikipedia;

/// A transport that answers as the API does for the handful of articles that
/// these tests ask about.
#[derive(Default)]
struct Encyclopedia;

const LAW: &str = "Law of triviality";
const LAW_ID: &str = "4138548";
const SUMMARY: &str = "The law of triviality is C. Northcote Parkinson's 1957 argument that people give disproportionate weight to trivial issues, known as bike-shedding.";
const ARTICLE: &str = "The law of triviality is C. Northcote Parkinson's 1957 argument that people give disproportionate weight to trivial issues, known as bike-shedding.\n\n\n== Argument ==\nA reactor is so vastly expensive and complicated that an average person cannot understand it.\n\n\n== Related principles and formulations ==\nThere are several.\n\n\n== See also ==\nMore.";

fn value<'a>(args: &'a [(String, String)], name: &str) -> Option<&'a str> {
    args.iter().find(|p| p.0 == name).map(|p| p.1.as_str())
}

fn quoted(text: &str) -> String {
    let mut out = String::from("\"");
    for c in text.chars() {
        match c {
            '"' => out.push_str("\\\""),
            '\\' => out.push_str("\\\\"),
            '\n' => out.push_str("\\n"),
            c => out.push(c),
        }
    }
    out.push('"');
    out
}

fn titles(list: &[&str]) -> String {
    let items: Vec<String> = list.iter().map(|t| format!("{{\"title\":{}}}", quoted(t))).collect();
    format!("[{}]", items.join(","))
}

/// One page of `size` numbered elements out of `total`, and the offset of
/// the page behind it.
fn window(args: &[(String, String)], key: &str, limit: &str, total: usize) -> (usize, usize, Option<usize>) {
    let size: usize = match value(args, limit).unwrap() {
        "max" => 500,
        size => size.parse().unwrap(),
    };
    let from: usize = value(args, key).map(|v| v.parse().unwrap()).unwrap_or(0);
    let to = (from + size).min(total);
    (from, to, if to < total { Some(to) } else { None })
}

fn with_continue(key: &str, next: Option<usize>, query: String) -> String {
    match next {
        Some(offset) => format!(
            "{{\"continue\":{{{}:{},\"continue\":\"||\"}},\"query\":{}}}",
            quoted(key),
            offset,
            query
        ),
        None => format!("{{\"batchcomplete\":\"\",\"query\":{}}}", query),
    }
}

impl Encyclopedia {
    fn list(&self, args: &[(String, String)], list: &str) -> String {
        let found = match list {
            "search" => titles(&["\"Hello, World!\" program", "Hello World", "Hello"]),
            "geosearch" => {
                assert_eq!(value(args, "gscoord"), Some("-34.607307|-58.445566"));
                assert_eq!(value(args, "gsradius"), Some("1000"));
                titles(&["Villa Crespo", "Parque Centenario"])
            }
            _ => {
                let count: usize = value(args, "rnlimit").unwrap().parse().unwrap();
                let names: Vec<String> = (0..count).map(|i| format!("Article {}", i)).collect();
                let names: Vec<&str> = names.iter().map(|n| n.as_str()).collect();
                titles(&names)
            }
        };
        format!("{{\"batchcomplete\":\"\",\"query\":{{{}:{}}}}}", quoted(list), found)
    }

    fn law(&self, args: &[(String, String)]) -> String {
        match value(args, "titles") {
            Some(title) if title != LAW => {
                return format!(
                    "{{\"query\":{{\"redirects\":[{{\"from\":{},\"to\":{}}}],\"pages\":{{{}:{{\"pageid\":{},\"title\":{}}}}}}}}}",
                    quoted(title),
                    quoted(LAW),
                    quoted(LAW_ID),
                    LAW_ID,
                    quoted(LAW)
                );
            }
            _ => {}
        }
        let prop = value(args, "prop").unwrap();
        let body = match prop {
            "extracts|revisions" => format!("\"extract\":{}", quoted(ARTICLE)),
            "extracts" => format!("\"extract\":{}", quoted(SUMMARY)),
            "revisions" => format!(
                "\"revisions\":[{{\"*\":{}}}]",
                quoted("<div class=\"mw-parser-output\"><p>known as bike-shedding</p></div>")
            ),
            "coordinates" => String::from("\"ns\":0"),
            "langlinks" => {
                let all = [
                    ("de", "Parkinsons Gesetz der Trivialität"),
                    ("es", "Ley de la trivialidad"),
                    ("fr", "Loi de futilité de Parkinson"),
                    ("it", "Legge della banalità"),
                    ("nl", "Trivialiteitswet van Parkinson"),
                    ("pt", "Lei da trivialidade"),
                    ("ru", "Закон тривиальности"),
                ];
                let (from, to, next) = window(args, "llcontinue", "lllimit", all.len());
                let items: Vec<String> = all[from..to]
                    .iter()
                    .map(|l| format!("{{\"lang\":{},\"*\":{}}}", quoted(l.0), quoted(l.1)))
                    .collect();
                return with_continue(
                    "llcontinue",
                    next,
                    format!(
                        "{{\"pages\":{{{}:{{\"title\":{},\"langlinks\":[{}]}}}}}}",
                        quoted(LAW_ID),
                        quoted(LAW),
                        items.join(",")
                    ),
                );
            }
            _ => String::from("\"ns\":0"),
        };
        format!(
            "{{\"batchcomplete\":\"\",\"query\":{{\"pages\":{{{}:{{\"pageid\":{},\"title\":{},{}}}}}}}}}",
            quoted(LAW_ID),
            LAW_ID,
            quoted(LAW),
            body
        )
    }

    fn argentina(&self, args: &[(String, String)]) -> String {
        if value(args, "generator") == Some("images") {
            let (from, to, next) = window(args, "gimcontinue", "gimlimit", 14);
            let pages: Vec<String> = (from..to)
                .map(|i| {
                    format!(
                        "\"-{}\":{{\"title\":\"File:Argentina {}.svg\",\"imageinfo\":[{{\"url\":\"https://upload.example/{}.svg\",\"descriptionurl\":\"https://commons.example/File:{}.svg\"}}]}}",
                        i + 1, i, i, i
                    )
                })
                .collect();
            return with_continue("gimcontinue", next, format!("{{\"pages\":{{{}}}}}", pages.join(",")));
        }
        let (field, key, limit, item): (&str, &str, &str, fn(usize) -> String) =
            match value(args, "prop").unwrap() {
                "extlinks" => ("extlinks", "eloffset", "ellimit", |i| {
                    format!("{{\"*\":\"//reference.example/{}\"}}", i)
                }),
                _ => ("links", "plcontinue", "ellimit", |i| {
                    format!("{{\"ns\":0,\"title\":\"Linked article {}\"}}", i)
                }),
            };
        let (from, to, next) = window(args, key, limit, 10);
        let items: Vec<String> = (from..to).map(item).collect();
        with_continue(
            key,
            next,
            format!(
                "{{\"pages\":{{\"18951905\":{{\"title\":\"Argentina\",{}:[{}]}}}}}}",
                quoted(field),
                items.join(",")
            ),
        )
    }
}

impl HttpClient for Encyclopedia {
    fn user_agent(&mut self, _user_agent: String) {}

    fn bearer_token(&mut self, _bearer_token: String) {}

    fn get(&self, base_url: &str, args: &Vec<(String, String)>) -> Result<String, WikiError> {
        assert_eq!(base_url, "https://en.wikipedia.org/w/api.php");
        assert_eq!(value(args, "format"), Some("json"));
        if value(args, "action") == Some("parse") {
            assert_eq!(value(args, "pageid"), Some(LAW_ID));
            return Ok(String::from("{\"parse\":{\"title\":\"Law of triviality\",\"pageid\":4138548,\"sections\":[{\"toclevel\":1,\"line\":\"Argument\",\"number\":\"1\"},{\"toclevel\":1,\"line\":\"Related principles and formulations\",\"number\":\"2\"},{\"toclevel\":1,\"line\":\"See also\",\"number\":\"3\"},{\"toclevel\":1,\"line\":\"References\",\"number\":\"4\"},{\"toclevel\":1,\"line\":\"Further reading\",\"number\":\"5\"},{\"toclevel\":1,\"line\":\"External links\",\"number\":\"6\"}]}}"));
        }
        assert_eq!(value(args, "action"), Some("query"));
        if let Some(list) = value(args, "list") {
            return Ok(self.list(args, list));
        }
        if value(args, "meta") == Some("siteinfo") {
            return Ok(String::from("{\"batchcomplete\":\"\",\"query\":{\"languages\":[{\"code\":\"de\",\"*\":\"Deutsch\"},{\"code\":\"en\",\"*\":\"English\"},{\"code\":\"es\",\"*\":\"español\"}]}}"));
        }
        match value(args, "titles") {
            Some("Argentina") => Ok(self.argentina(args)),
            Some("San Francisco") => Ok(String::from("{\"batchcomplete\":\"\",\"query\":{\"pages\":{\"49728\":{\"pageid\":49728,\"title\":\"San Francisco\",\"coordinates\":[{\"lat\":37.7775,\"lon\":-122.41638889,\"primary\":\"\",\"globe\":\"earth\"}]}}}}")),
            _ => Ok(self.law(args)),
        }
    }
}

fn w() -> Wikipedia<Encyclopedia> {
    Wikipedia::default()
}

#[test]
fn integration_search() {
    let wikipedia = w();
    let results = wikipedia.search("hello world").unwrap();
    assert!(!results.is_empty());
    assert!(results.contains(&"\"Hello, World!\" program".to_owned()));
}

#[test]
fn integration_geosearch() {
    let wikipedia = w();
    let results = wikipedia
        .geosearch(&format!("{}", -34.607307), &format!("{}", -58.445566), 1000)
        .unwrap();
    assert!(!results.is_empty());
    println!("{:?}", results);
    assert!(results.contains(&"Villa Crespo".to_owned()));
}

#[test]
fn integration_random() {
    let wikipedia = w();
    wikipedia.random().unwrap().unwrap();
}

#[test]
fn integration_random_count() {
    let wikipedia = w();
    assert_eq!(wikipedia.random_count(3).unwrap().len(), 3);
}

#[test]
fn integration_page_content() {
    let wikipedia = w();
    let page = wikipedia.page_from_title("Parkinson's law of triviality".to_owned());
    assert!(page.get_content().unwrap().contains("bike-shedding"));
}

#[test]
fn title() {
    let wikipedia = w();
    let page = wikipedia.page_from_title("Parkinson's law of triviality".to_owned());
    assert_eq!(page.get_title().unwrap(), "Parkinson's law of triviality".to_owned());
    let page = wikipedia.page_from_pageid("4138548".to_owned());
    assert_eq!(page.get_title().unwrap(), "Law of triviality".to_owned());
}

#[test]
fn pageid() {
    let wikipedia = w();
    let page = wikipedia.page_from_title("Parkinson's law of triviality".to_owned());
    assert_eq!(page.get_pageid().unwrap(), "4138548".to_owned());
    let page = wikipedia.page_from_title("Bikeshedding".to_owned());
    assert_eq!(page.get_pageid().unwrap(), "4138548".to_owned());
    let page = wikipedia.page_from_pageid("4138548".to_owned());
    assert_eq!(page.get_pageid().unwrap(), "4138548".to_owned());
}

#[test]
fn integration_page_html_content() {
    let wikipedia = w();
    let page = wikipedia.page_from_pageid("4138548".to_owned());
    let html = page.get_html_content().unwrap();
    assert!(html.contains("bike-shedding"));
    assert!(html.contains("</div>"));
}

#[test]
fn integration_page_summary() {
    let wikipedia = w();
    let page = wikipedia.page_from_title("Parkinson's law of triviality".to_owned());
    let summary = page.get_summary().unwrap();
    let content = page.get_content().unwrap();
    assert!(summary.contains("bike-shedding"));
    assert!(summary.len() < content.len());
}

#[test]
fn integration_page_redirect_summary() {
    let wikipedia = w();
    let page = wikipedia.page_from_title("Bikeshedding".to_owned());
    let summary = page.get_summary().unwrap();
    let content = page.get_content().unwrap();
    assert!(summary.contains("bike-shedding"));
    assert!(summary.len() < content.len());
}

#[test]
fn integration_page_images() {
    let mut wikipedia = w();
    wikipedia.images_results = "5".to_owned();
    let page = wikipedia.page_from_title("Argentina".to_owned());
    let mut images = page.get_images().unwrap();
    let mut c = 0;
    let mut set = HashSet::new();
    while let Some(i) = images.next() {
        assert!(!i.title.is_empty());
        assert!(!i.url.is_empty());
        assert!(!i.description_url.is_empty());
        c += 1;
        set.insert(i.title);
        if c == 11 {
            break;
        }
    }
    assert_eq!(set.len(), 11);
}

#[test]
fn coordinates() {
    let wikipedia = w();
    let page = wikipedia.page_from_title("San Francisco".to_owned());
    let (lat, lon) = page.get_coordinates().unwrap().unwrap();
    let (lat, lon) = (lat.parse::<f64>().unwrap(), lon.parse::<f64>().unwrap());
    assert!(lat > 0.0);
    assert!(lon < 0.0);
}

#[test]
fn no_coordinates() {
    let wikipedia = w();
    let page = wikipedia.page_from_title("Bikeshedding".to_owned());
    assert!(page.get_coordinates().unwrap().is_none());
}

#[test]
fn references() {
    let mut wikipedia = w();
    wikipedia.links_results = "3".to_owned();
    let page = wikipedia.page_from_title("Argentina".to_owned());
    let mut references = page.get_references().unwrap();
    let mut c = 0;
    let mut set = HashSet::new();
    while let Some(r) = references.next() {
        assert!(r.url.starts_with("http"));
        c += 1;
        set.insert(r.url);
        if c == 7 {
            break;
        }
    }
    assert_eq!(set.len(), 7);
}

#[test]
fn links() {
    let mut wikipedia = w();
    wikipedia.links_results = "3".to_owned();
    let page = wikipedia.page_from_title("Argentina".to_owned());
    let mut links = page.get_links().unwrap();
    let mut c = 0;
    let mut set = HashSet::new();
    while let Some(r) = links.next() {
        c += 1;
        set.insert(r.title);
        if c == 7 {
            break;
        }
    }
    assert_eq!(set.len(), 7);
}

#[test]
fn langlinks() {
    let mut wikipedia = w();
    wikipedia.links_results = "3".to_owned();
    let page = wikipedia.page_from_title("Law of triviality".to_owned());
    let mut found = page.get_langlinks().unwrap();
    let mut langlinks = Vec::new();
    while let Some(ll) = found.next() {
        langlinks.push(ll);
    }
    assert_eq!(
        langlinks.iter().find(|ll| ll.lang == *"nl").unwrap().title,
        Some("Trivialiteitswet van Parkinson".into()),
    );
    assert_eq!(
        langlinks.iter().find(|ll| ll.lang == *"fr").unwrap().title,
        Some("Loi de futilité de Parkinson".into()),
    );
}

#[test]
fn categories() {
    let mut wikipedia = w();
    wikipedia.categories_results = "3".to_owned();
    let page = wikipedia.page_from_title("Argentina".to_owned());
    let mut categories = page.get_links().unwrap();
    let mut c = 0;
    let mut set = HashSet::new();
    while let Some(ca) = categories.next() {
        c += 1;
        set.insert(ca.title);
        if c == 7 {
            break;
        }
    }
    assert_eq!(set.len(), 7);
}

#[test]
fn integration_sections() {
    let wikipedia = w();
    let page = wikipedia.page_from_title("Bikeshedding".to_owned());
    assert_eq!(
        page.get_sections().unwrap(),
        vec![
            "Argument".to_owned(),
            "Related principles and formulations".to_owned(),
            "See also".to_owned(),
            "References".to_owned(),
            "Further reading".to_owned(),
            "External links".to_owned(),
        ]
    )
}

#[test]
fn sections2() {
    let wikipedia = w();
    let page = wikipedia.page_from_pageid("4138548".to_owned());
    assert_eq!(
        page.get_sections().unwrap(),
        vec![
            "Argument".to_owned(),
            "Related principles and formulations".to_owned(),
            "See also".to_owned(),
            "References".to_owned(),
            "Further reading".to_owned(),
            "External links".to_owned(),
        ]
    )
}

#[test]
fn section_content() {
    let wikipedia = w();
    let page = wikipedia.page_from_pageid("4138548".to_owned());
    assert!(page
        .get_section_content("Argument")
        .unwrap()
        .unwrap()
        .contains("reactor is so vastly expensive"))
}

#[test]
fn integration_languages() {
    let languages = w().get_languages().unwrap();
    assert!(languages.contains(&("en".to_owned(), "English".to_owned())));
    assert!(languages.contains(&("es".to_owned(), "español".to_owned())));
}
