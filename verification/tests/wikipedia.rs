use std::sync::Mutex;

use wikipedia::error::WikiError;
use wikipedia::http::HttpClient;
use wikipedia::iter::{Category, Image, IterItem, LangLink, Link, Reference};
use wikipedia::Iter;
use wikipedia::Wikipedia;

/// A transport that answers from a list and records what it was asked.
struct MockClient {
    pub url: Mutex<Vec<String>>,
    pub user_agent: Option<String>,
    pub bearer_token: Option<String>,
    pub arguments: Mutex<Vec<Vec<(String, String)>>>,
    pub response: Mutex<Vec<String>>,
}

impl Default for MockClient {
    fn default() -> Self {
        MockClient {
            url: Mutex::new(Vec::new()),
            user_agent: None,
            bearer_token: None,
            arguments: Mutex::new(Vec::new()),
            response: Mutex::new(Vec::new()),
        }
    }
}

impl HttpClient for MockClient {
    fn user_agent(&mut self, user_agent: String) {
        self.user_agent = Some(user_agent)
    }

    fn bearer_token(&mut self, bearer_token: String) {
        self.bearer_token = Some(bearer_token)
    }

    fn get(&self, base_url: &str, args: &Vec<(String, String)>) -> Result<String, WikiError> {
        self.url.lock().unwrap().push(base_url.to_owned());
        self.arguments.lock().unwrap().push(args.clone());
        let mut responses = self.response.lock().unwrap();
        if responses.is_empty() {
            return Err(WikiError::HTTPError);
        }
        Ok(responses.remove(0))
    }
}

fn respond(wikipedia: &Wikipedia<MockClient>, body: &str) {
    wikipedia.client.response.lock().unwrap().push(body.to_owned());
}

fn pairs(list: &[(&str, &str)]) -> Vec<(String, String)> {
    list.iter().map(|p| (p.0.to_owned(), p.1.to_owned())).collect()
}

fn collect<B: IterItem>(mut iter: Iter<MockClient, B>) -> Vec<B> {
    let mut all = Vec::new();
    while let Some(item) = iter.next() {
        all.push(item);
    }
    all
}

#[test]
fn base_url() {
    let mut wikipedia = Wikipedia::<MockClient>::default();
    assert_eq!(wikipedia.base_url(), "https://en.wikipedia.org/w/api.php");
    wikipedia.language = "es".to_owned();
    assert_eq!(wikipedia.base_url(), "https://es.wikipedia.org/w/api.php");

    wikipedia.set_base_url("https://hello.{language}.world/");
    assert_eq!(wikipedia.base_url(), "https://hello.es.world/");

    wikipedia.set_base_url("https://hello.world/");
    assert_eq!(wikipedia.base_url(), "https://hello.world/");
}

#[test]
fn user_agent() {
    let mut wikipedia = Wikipedia::<MockClient>::default();
    respond(&wikipedia, "{}");
    wikipedia.search("hello world").unwrap_err();
    assert_eq!(
        &*wikipedia.client.user_agent.unwrap(),
        "wikipedia (https://github.com/seppo0010/wikipedia-rs)"
    );

    let mut client = MockClient::default();
    client.user_agent("hello world".to_owned());
    client.response.lock().unwrap().push("{}".to_owned());
    wikipedia.client = client;
    wikipedia.search("hello world").unwrap_err();
    assert_eq!(&*wikipedia.client.user_agent.unwrap(), "hello world");
}

#[test]
fn lib_search() {
    let wikipedia = Wikipedia::<MockClient>::default();
    respond(
        &wikipedia,
        "{\"query\":{\"search\":[{\"title\":\"hello\"}, {\"title\":\"world\"}]}}",
    );
    assert_eq!(
        wikipedia.search("hello world").unwrap(),
        vec!["hello".to_owned(), "world".to_owned(),]
    );
    assert_eq!(
        *wikipedia.client.url.lock().unwrap(),
        vec!["https://en.wikipedia.org/w/api.php".to_owned()]
    );
    assert_eq!(
        *wikipedia.client.arguments.lock().unwrap(),
        vec![vec![
            ("list".to_owned(), "search".to_owned()),
            ("srprop".to_owned(), "".to_owned()),
            ("srlimit".to_owned(), "10".to_owned()),
            ("srsearch".to_owned(), "hello world".to_owned()),
            ("format".to_owned(), "json".to_owned()),
            ("action".to_owned(), "query".to_owned())
        ]]
    );
}

#[test]
fn lib_geosearch() {
    let wikipedia = Wikipedia::<MockClient>::default();
    respond(
        &wikipedia,
        "{\"query\":{\"geosearch\":[{\"title\":\"hello\"}, {\"title\":\"world\"}]}}",
    );
    let latitude = format!("{}", -34.603333);
    let longitude = format!("{}", -58.381667);
    assert_eq!(
        wikipedia.geosearch(&latitude, &longitude, 10).unwrap(),
        vec!["hello".to_owned(), "world".to_owned(),]
    );
    assert_eq!(
        *wikipedia.client.url.lock().unwrap(),
        vec!["https://en.wikipedia.org/w/api.php".to_owned()]
    );
    assert_eq!(
        *wikipedia.client.arguments.lock().unwrap(),
        vec![vec![
            ("list".to_owned(), "geosearch".to_owned()),
            ("gsradius".to_owned(), "10".to_owned()),
            ("gscoord".to_owned(), "-34.603333|-58.381667".to_owned()),
            ("gslimit".to_owned(), "10".to_owned()),
            ("format".to_owned(), "json".to_owned()),
            ("action".to_owned(), "query".to_owned())
        ]]
    );
}

#[test]
fn lib_random_count() {
    let wikipedia = Wikipedia::<MockClient>::default();
    respond(
        &wikipedia,
        "{\"query\":{\"random\":[{\"title\":\"hello\"}, {\"title\":\"world\"}]}}",
    );
    assert_eq!(
        wikipedia.random_count(10).unwrap(),
        vec!["hello".to_owned(), "world".to_owned(),]
    );
    assert_eq!(
        *wikipedia.client.url.lock().unwrap(),
        vec!["https://en.wikipedia.org/w/api.php".to_owned()]
    );
    assert_eq!(
        *wikipedia.client.arguments.lock().unwrap(),
        vec![vec![
            ("list".to_owned(), "random".to_owned()),
            ("rnnamespace".to_owned(), "0".to_owned()),
            ("rnlimit".to_owned(), "10".to_owned()),
            ("format".to_owned(), "json".to_owned()),
            ("action".to_owned(), "query".to_owned())
        ]]
    );
}

#[test]
fn lib_random() {
    let wikipedia = Wikipedia::<MockClient>::default();
    respond(
        &wikipedia,
        "{\"query\":{\"random\":[{\"title\":\"hello\"}, {\"title\":\"world\"}]}}",
    );
    assert_eq!(wikipedia.random().unwrap(), Some("hello".to_owned()));
    assert_eq!(
        *wikipedia.client.url.lock().unwrap(),
        vec!["https://en.wikipedia.org/w/api.php".to_owned()]
    );
    assert_eq!(
        *wikipedia.client.arguments.lock().unwrap(),
        vec![vec![
            ("list".to_owned(), "random".to_owned()),
            ("rnnamespace".to_owned(), "0".to_owned()),
            ("rnlimit".to_owned(), "1".to_owned()),
            ("format".to_owned(), "json".to_owned()),
            ("action".to_owned(), "query".to_owned())
        ]]
    );
}

#[test]
fn lib_page_content() {
    let wikipedia = Wikipedia::<MockClient>::default();
    respond(&wikipedia, "{\"query\":{\"pages\":{\"a\":{\"extract\":\"hello\"}}}}");
    let page = wikipedia.page_from_pageid("4138548".to_owned());
    let html = page.get_content().unwrap();
    assert_eq!(html, "hello".to_owned());
    assert_eq!(
        *wikipedia.client.url.lock().unwrap(),
        vec!["https://en.wikipedia.org/w/api.php".to_owned()]
    );
    assert_eq!(
        *wikipedia.client.arguments.lock().unwrap(),
        vec![vec![
            ("prop".to_owned(), "extracts|revisions".to_owned()),
            ("explaintext".to_owned(), "".to_owned()),
            ("rvprop".to_owned(), "ids".to_owned()),
            ("redirects".to_owned(), "".to_owned()),
            ("format".to_owned(), "json".to_owned()),
            ("action".to_owned(), "query".to_owned()),
            ("pageids".to_owned(), "4138548".to_owned()),
        ]]
    );
}

#[test]
fn lib_page_html_content() {
    let wikipedia = Wikipedia::<MockClient>::default();
    respond(
        &wikipedia,
        "{\"query\":{\"pages\":{\"a\":{\"revisions\":[{\"*\":\"hello\"}]}}}}",
    );
    let page = wikipedia.page_from_pageid("4138548".to_owned());
    let html = page.get_html_content().unwrap();
    assert_eq!(html, "hello".to_owned());
    assert_eq!(
        *wikipedia.client.url.lock().unwrap(),
        vec!["https://en.wikipedia.org/w/api.php".to_owned()]
    );
    assert_eq!(
        *wikipedia.client.arguments.lock().unwrap(),
        vec![vec![
            ("prop".to_owned(), "revisions".to_owned()),
            ("rvprop".to_owned(), "content".to_owned()),
            ("rvlimit".to_owned(), "1".to_owned()),
            ("rvparse".to_owned(), "".to_owned()),
            ("redirects".to_owned(), "".to_owned()),
            ("format".to_owned(), "json".to_owned()),
            ("action".to_owned(), "query".to_owned()),
            ("pageids".to_owned(), "4138548".to_owned()),
        ]]
    );
}

#[test]
fn lib_page_summary() {
    let wikipedia = Wikipedia::<MockClient>::default();
    respond(&wikipedia, "{\"query\":{\"pages\":{\"a\":{\"extract\":\"hello\"}}}}");
    let page = wikipedia.page_from_title("Parkinson's law of triviality".to_owned());
    let summary = page.get_summary().unwrap();
    assert_eq!(summary, "hello".to_owned());
    assert_eq!(
        *wikipedia.client.url.lock().unwrap(),
        vec!["https://en.wikipedia.org/w/api.php".to_owned()]
    );
    assert_eq!(
        *wikipedia.client.arguments.lock().unwrap(),
        vec![vec![
            ("prop".to_owned(), "extracts".to_owned()),
            ("explaintext".to_owned(), "".to_owned()),
            ("exintro".to_owned(), "".to_owned()),
            ("redirects".to_owned(), "".to_owned()),
            ("format".to_owned(), "json".to_owned()),
            ("action".to_owned(), "query".to_owned()),
            (
                "titles".to_owned(),
                "Parkinson\'s law of triviality".to_owned()
            )
        ]]
    );
}

#[test]
fn lib_page_redirect_summary() {
    let wikipedia = Wikipedia::<MockClient>::default();
    respond(&wikipedia, "{\"query\":{\"redirects\":[{\"to\":\"hello world\"}]}}");
    respond(&wikipedia, "{\"query\":{\"pages\":{\"a\":{\"extract\":\"hello\"}}}}");
    let page = wikipedia.page_from_title("Parkinson's law of triviality".to_owned());
    let summary = page.get_summary().unwrap();
    assert_eq!(summary, "hello".to_owned());
    assert_eq!(
        *wikipedia.client.url.lock().unwrap(),
        vec![
            "https://en.wikipedia.org/w/api.php".to_owned(),
            "https://en.wikipedia.org/w/api.php".to_owned(),
        ]
    );
    assert_eq!(
        *wikipedia.client.arguments.lock().unwrap(),
        vec![
            vec![
                ("prop".to_owned(), "extracts".to_owned()),
                ("explaintext".to_owned(), "".to_owned()),
                ("exintro".to_owned(), "".to_owned()),
                ("redirects".to_owned(), "".to_owned()),
                ("format".to_owned(), "json".to_owned()),
                ("action".to_owned(), "query".to_owned()),
                (
                    "titles".to_owned(),
                    "Parkinson\'s law of triviality".to_owned()
                )
            ],
            vec![
                ("prop".to_owned(), "extracts".to_owned()),
                ("explaintext".to_owned(), "".to_owned()),
                ("exintro".to_owned(), "".to_owned()),
                ("redirects".to_owned(), "".to_owned()),
                ("format".to_owned(), "json".to_owned()),
                ("action".to_owned(), "query".to_owned()),
                ("titles".to_owned(), "hello world".to_owned())
            ]
        ]
    );
}

#[test]
fn lib_page_images() {
    let wikipedia = Wikipedia::<MockClient>::default();
    respond(&wikipedia, "{\"continue\": {\"lol\":\"1\"},\"query\":{\"pages\":{\"a\":{\"title\":\"Image 1\", \"imageinfo\":[{\"url\": \"http://example.com/image1.jpg\", \"descriptionurl\": \"http://example.com/image1.jpg.html\"}]}}}}");
    respond(&wikipedia, "{\"query\":{\"pages\":{\"a\":{\"title\":\"Image 2\", \"imageinfo\":[{\"url\": \"http://example.com/image2.jpg\", \"descriptionurl\": \"http://example.com/image2.jpg.html\"}]}}}}");
    let page = wikipedia.page_from_title("Parkinson's law of triviality".to_owned());
    let images = collect(page.get_images().unwrap());
    assert_eq!(
        images,
        vec![
            Image {
                url: "http://example.com/image1.jpg".to_owned(),
                title: "Image 1".to_owned(),
                description_url: "http://example.com/image1.jpg.html".to_owned(),
            },
            Image {
                url: "http://example.com/image2.jpg".to_owned(),
                title: "Image 2".to_owned(),
                description_url: "http://example.com/image2.jpg.html".to_owned(),
            }
        ]
    );
    assert_eq!(
        *wikipedia.client.url.lock().unwrap(),
        vec![
            "https://en.wikipedia.org/w/api.php".to_owned(),
            "https://en.wikipedia.org/w/api.php".to_owned(),
        ]
    );
    assert_eq!(
        *wikipedia.client.arguments.lock().unwrap(),
        vec![
            vec![
                ("generator".to_owned(), "images".to_owned()),
                ("gimlimit".to_owned(), "max".to_owned()),
                ("prop".to_owned(), "imageinfo".to_owned()),
                ("iiprop".to_owned(), "url".to_owned()),
                ("format".to_owned(), "json".to_owned()),
                ("action".to_owned(), "query".to_owned()),
                (
                    "titles".to_owned(),
                    "Parkinson\'s law of triviality".to_owned()
                ),
                ("continue".to_owned(), "".to_owned())
            ],
            vec![
                ("generator".to_owned(), "images".to_owned()),
                ("gimlimit".to_owned(), "max".to_owned()),
                ("prop".to_owned(), "imageinfo".to_owned()),
                ("iiprop".to_owned(), "url".to_owned()),
                ("format".to_owned(), "json".to_owned()),
                ("action".to_owned(), "query".to_owned()),
                (
                    "titles".to_owned(),
                    "Parkinson\'s law of triviality".to_owned()
                ),
                ("lol".to_owned(), "1".to_owned())
            ]
        ]
    );
}

#[test]
fn page_coordinates() {
    let wikipedia = Wikipedia::<MockClient>::default();
    respond(
        &wikipedia,
        "{\"query\":{\"pages\":{\"a\":{\"coordinates\":[{\"lat\": 2.1, \"lon\":-1.3}]}}}}",
    );
    let page = wikipedia.page_from_title("World".to_owned());
    let (lat, lon) = page.get_coordinates().unwrap().unwrap();
    let coordinates = (lat.parse::<f64>().unwrap(), lon.parse::<f64>().unwrap());
    assert_eq!(coordinates, (2.1, -1.3));
    assert_eq!(
        *wikipedia.client.url.lock().unwrap(),
        vec!["https://en.wikipedia.org/w/api.php".to_owned()]
    );
    assert_eq!(
        *wikipedia.client.arguments.lock().unwrap(),
        vec![vec![
            ("prop".to_owned(), "coordinates".to_owned()),
            ("colimit".to_owned(), "max".to_owned()),
            ("redirects".to_owned(), "".to_owned()),
            ("format".to_owned(), "json".to_owned()),
            ("action".to_owned(), "query".to_owned()),
            ("titles".to_owned(), "World".to_owned())
        ]]
    );
}

#[test]
fn page_no_coordinates() {
    let wikipedia = Wikipedia::<MockClient>::default();
    respond(&wikipedia, "{\"query\":{\"pages\":{\"a\":{}}}}");
    let page = wikipedia.page_from_title("World".to_owned());
    assert!(page.get_coordinates().unwrap().is_none());
    assert_eq!(
        *wikipedia.client.url.lock().unwrap(),
        vec!["https://en.wikipedia.org/w/api.php".to_owned()]
    );
    assert_eq!(
        *wikipedia.client.arguments.lock().unwrap(),
        vec![vec![
            ("prop".to_owned(), "coordinates".to_owned()),
            ("colimit".to_owned(), "max".to_owned()),
            ("redirects".to_owned(), "".to_owned()),
            ("format".to_owned(), "json".to_owned()),
            ("action".to_owned(), "query".to_owned()),
            ("titles".to_owned(), "World".to_owned())
        ]]
    );
}

#[test]
fn get_references() {
    let wikipedia = Wikipedia::<MockClient>::default();
    respond(&wikipedia, "{\"continue\": {\"lol\":\"1\"},\"query\":{\"pages\":{\"a\":{\"extlinks\":[{\"*\": \"//example.com/reference1.html\"}]}}}}");
    respond(&wikipedia, "{\"query\":{\"pages\":{\"a\":{\"extlinks\":[{\"*\": \"//example.com/reference2.html\"}]}}}}");
    let page = wikipedia.page_from_title("World".to_owned());
    assert_eq!(
        collect(page.get_references().unwrap()),
        vec![
            Reference {
                url: "http://example.com/reference1.html".to_owned(),
            },
            Reference {
                url: "http://example.com/reference2.html".to_owned(),
            }
        ]
    );
    assert_eq!(
        *wikipedia.client.url.lock().unwrap(),
        vec![
            "https://en.wikipedia.org/w/api.php".to_owned(),
            "https://en.wikipedia.org/w/api.php".to_owned(),
        ]
    );
    assert_eq!(
        *wikipedia.client.arguments.lock().unwrap(),
        vec![
            vec![
                ("prop".to_owned(), "extlinks".to_owned()),
                ("ellimit".to_owned(), "max".to_owned()),
                ("format".to_owned(), "json".to_owned()),
                ("action".to_owned(), "query".to_owned()),
                ("titles".to_owned(), "World".to_owned()),
                ("continue".to_owned(), "".to_owned())
            ],
            vec![
                ("prop".to_owned(), "extlinks".to_owned()),
                ("ellimit".to_owned(), "max".to_owned()),
                ("format".to_owned(), "json".to_owned()),
                ("action".to_owned(), "query".to_owned()),
                ("titles".to_owned(), "World".to_owned()),
                ("lol".to_owned(), "1".to_owned())
            ]
        ]
    );
}

#[test]
fn get_links() {
    let wikipedia = Wikipedia::<MockClient>::default();
    respond(&wikipedia, "{\"continue\": {\"lol\":\"1\"},\"query\":{\"pages\":{\"a\":{\"links\":[{\"title\": \"Hello\"}]}}}}");
    respond(
        &wikipedia,
        "{\"query\":{\"pages\":{\"a\":{\"links\":[{\"title\": \"World\"}]}}}}",
    );
    let page = wikipedia.page_from_title("World".to_owned());
    assert_eq!(
        collect(page.get_links().unwrap()),
        vec![
            Link {
                title: "Hello".to_owned(),
            },
            Link {
                title: "World".to_owned(),
            }
        ]
    );
    assert_eq!(
        *wikipedia.client.url.lock().unwrap(),
        vec![
            "https://en.wikipedia.org/w/api.php".to_owned(),
            "https://en.wikipedia.org/w/api.php".to_owned(),
        ]
    );
    assert_eq!(
        *wikipedia.client.arguments.lock().unwrap(),
        vec![
            vec![
                ("prop".to_owned(), "links".to_owned()),
                ("plnamespace".to_owned(), "0".to_owned()),
                ("ellimit".to_owned(), "max".to_owned()),
                ("format".to_owned(), "json".to_owned()),
                ("action".to_owned(), "query".to_owned()),
                ("titles".to_owned(), "World".to_owned()),
                ("continue".to_owned(), "".to_owned()),
            ],
            vec![
                ("prop".to_owned(), "links".to_owned()),
                ("plnamespace".to_owned(), "0".to_owned()),
                ("ellimit".to_owned(), "max".to_owned()),
                ("format".to_owned(), "json".to_owned()),
                ("action".to_owned(), "query".to_owned()),
                ("titles".to_owned(), "World".to_owned()),
                ("lol".to_owned(), "1".to_owned()),
            ]
        ]
    );
}

#[test]
fn get_categories() {
    let wikipedia = Wikipedia::<MockClient>::default();
    respond(&wikipedia, "{\"continue\": {\"lol\":\"1\"},\"query\":{\"pages\":{\"a\":{\"categories\":[{\"title\": \"Hello\"}]}}}}");
    respond(
        &wikipedia,
        "{\"query\":{\"pages\":{\"a\":{\"categories\":[{\"title\": \"Category: World\"}]}}}}",
    );
    let page = wikipedia.page_from_title("World".to_owned());
    assert_eq!(
        collect(page.get_categories().unwrap()),
        vec![
            Category {
                title: "Hello".to_owned(),
            },
            Category {
                title: "World".to_owned(),
            }
        ]
    );
    assert_eq!(
        *wikipedia.client.url.lock().unwrap(),
        vec![
            "https://en.wikipedia.org/w/api.php".to_owned(),
            "https://en.wikipedia.org/w/api.php".to_owned(),
        ]
    );
    assert_eq!(
        *wikipedia.client.arguments.lock().unwrap(),
        vec![
            vec![
                ("prop".to_owned(), "categories".to_owned()),
                ("cllimit".to_owned(), "max".to_owned()),
                ("format".to_owned(), "json".to_owned()),
                ("action".to_owned(), "query".to_owned()),
                ("titles".to_owned(), "World".to_owned()),
                ("continue".to_owned(), "".to_owned()),
            ],
            vec![
                ("prop".to_owned(), "categories".to_owned()),
                ("cllimit".to_owned(), "max".to_owned()),
                ("format".to_owned(), "json".to_owned()),
                ("action".to_owned(), "query".to_owned()),
                ("titles".to_owned(), "World".to_owned()),
                ("lol".to_owned(), "1".to_owned()),
            ]
        ]
    );
}

#[test]
fn lib_sections() {
    let wikipedia = Wikipedia::<MockClient>::default();
    respond(
        &wikipedia,
        "{\"parse\":{\"sections\":[{\"line\":\"hello\"}, {\"line\":\"world\"}]}}",
    );
    let page = wikipedia.page_from_pageid("123".to_owned());
    assert_eq!(
        page.get_sections().unwrap(),
        vec!["hello".to_owned(), "world".to_owned()]
    );
    assert_eq!(
        *wikipedia.client.url.lock().unwrap(),
        vec!["https://en.wikipedia.org/w/api.php".to_owned()]
    );
    assert_eq!(
        *wikipedia.client.arguments.lock().unwrap(),
        vec![vec![
            ("prop".to_owned(), "sections".to_owned()),
            ("format".to_owned(), "json".to_owned()),
            ("action".to_owned(), "parse".to_owned()),
            ("pageid".to_owned(), "123".to_owned())
        ]]
    );
}

#[test]
fn lib_languages() {
    let wikipedia = Wikipedia::<MockClient>::default();
    respond(&wikipedia, "{\"query\":{\"languages\":[{\"*\":\"hello\", \"code\":\"world\"}, {\"*\":\"foo\", \"code\":\"bar\"}]}}");
    assert_eq!(
        wikipedia.get_languages().unwrap(),
        vec![
            ("world".to_owned(), "hello".to_owned()),
            ("bar".to_owned(), "foo".to_owned()),
        ]
    );
    assert_eq!(
        *wikipedia.client.url.lock().unwrap(),
        vec!["https://en.wikipedia.org/w/api.php".to_owned()]
    );
    assert_eq!(
        *wikipedia.client.arguments.lock().unwrap(),
        vec![vec![
            ("meta".to_owned(), "siteinfo".to_owned()),
            ("siprop".to_owned(), "languages".to_owned()),
            ("format".to_owned(), "json".to_owned()),
            ("action".to_owned(), "query".to_owned())
        ]]
    );
}
