use std::collections::BTreeMap;

use html5ever::tokenizer::{BufferQueue, Token, TokenSink, TokenSinkResult, Tokenizer};
use maman::page::MAMAN_NAME;
use maman::{
    fetch_limit, fetch_mime_types, Attribute, MediaType, Page, RobotsPolicy, RobotsRules, Spider, Tag, UrlError, WebUrl,
};

struct PageSink {
    page: Page,
}

impl TokenSink for PageSink {
    type Handle = ();

    fn process_token(&mut self, token: Token, _line: u64) -> TokenSinkResult<()> {
        if let Token::TagToken(tag) = token {
            let tag = Tag {
                name: tag.name.to_string(),
                attrs: tag
                    .attrs
                    .iter()
                    .map(|a| Attribute { name: a.name.local.to_string(), value: a.value.to_string() })
                    .collect(),
            };
            self.page.process_tag(&tag);
        }
        TokenSinkResult::Continue
    }
}

fn read_page(page: Page, document: &str) -> Page {
    let mut tok = Tokenizer::new(PageSink { page }, Default::default());
    let mut input = BufferQueue::new();
    input.push_back(String::from(document).into());
    let _ = tok.feed(&mut input);
    tok.end();
    tok.sink.page
}

fn url(s: &str) -> WebUrl {
    WebUrl::parse(s).unwrap()
}

fn new_page(address: &str, document: &str) -> Page {
    Page::new(url(address), document.to_string(), BTreeMap::new(), "200 OK".to_string())
}

fn visit_page(address: &str, input: &str) -> Spider {
    let mut spider = Spider::new(url(address), 0, Vec::new(), "test".to_string());
    let page = read_page(new_page(address, input), input);
    spider.visit_page(page);
    spider
}

fn links(address: &str, input: &str) -> Vec<String> {
    read_page(new_page(address, input), input).urls.iter().map(|u| u.as_str().to_string()).collect()
}

#[test]
fn lib_test_ignore_initial_url_link() {
    let input = "<html><body><a href='/' /><a href='/new' /></html>";
    let spider = visit_page("https://example.net/", input);
    assert_eq!(spider.visited_urls.len(), 1);
    assert_eq!(spider.unvisited_urls.len(), 1);
}

#[test]
fn lib_test_ignore_fragment_link() {
    let input = "<html><body><a href='#' /><a href='/new' /></html>";
    let spider = visit_page("https://example.net/", input);
    assert_eq!(spider.visited_urls.len(), 1);
    assert_eq!(spider.unvisited_urls.len(), 1);
}

#[test]
fn lib_test_ignore_mailto_link() {
    let input = "<html><body><a href='mailto:example@example.net' /><a href='/new' /></html>";
    let spider = visit_page("https://example.net/", input);
    assert_eq!(spider.visited_urls.len(), 1);
    assert_eq!(spider.unvisited_urls.len(), 1);
}

#[test]
fn lib_test_new_with_fragment_link() {
    let input = "<html><body><a href='/todo#new' /><a href='/new' /></html>";
    let spider = visit_page("https://example.net/", input);
    assert_eq!(spider.visited_urls.len(), 1);
    assert_eq!(spider.unvisited_urls.len(), 2);
}

#[test]
fn lib_test_other_domain_link() {
    let input = "<html><body><a href='https://github.com/' /></html>";
    let spider = visit_page("https://example.net/", input);
    assert_eq!(spider.visited_urls.len(), 1);
    assert_eq!(spider.unvisited_urls.len(), 0);
}

#[test]
fn tests_test_ignore_initial_url_link() {
    let input = "<html><body><a href='/' /><a href='/new' /></html>";
    let spider = visit_page("http://example.net/", input);
    assert_eq!(spider.visited_urls.len(), 1);
    assert_eq!(spider.unvisited_urls.len(), 1);
}

#[test]
fn tests_test_ignore_fragment_link() {
    let input = "<html><body><a href='#' /><a href='/new' /></html>";
    let spider = visit_page("http://example.net/", input);
    assert_eq!(spider.visited_urls.len(), 1);
    assert_eq!(spider.unvisited_urls.len(), 1);
}

#[test]
fn tests_test_ignore_mailto_link() {
    let input = "<html><body><a href='mailto:example@example.net' /><a href='/new' /></html>";
    let spider = visit_page("http://example.net/", input);
    assert_eq!(spider.visited_urls.len(), 1);
    assert_eq!(spider.unvisited_urls.len(), 1);
}

#[test]
fn tests_test_new_with_fragment_link() {
    let input = "<html><body><a href='/todo#new' /><a href='/new' /></html>";
    let spider = visit_page("http://example.net/", input);
    assert_eq!(spider.visited_urls.len(), 1);
    assert_eq!(spider.unvisited_urls.len(), 2);
}

#[test]
fn tests_test_other_domain_link() {
    let input = "<html><body><a href='https://github.com/' /></html>";
    let spider = visit_page("http://example.net/", input);
    assert_eq!(spider.visited_urls.len(), 1);
    assert_eq!(spider.unvisited_urls.len(), 0);
}

#[test]
fn lib_test_json_job_format() {
    let input = "<html><body><a href='/todo#new' /><a href='/new' /></html>";
    let mut headers = BTreeMap::new();
    headers.insert("content-type".to_string(), "text/html".to_string());
    let page = Page::new(url("http://example.net/"), input.to_string(), headers.clone(), "200 OK".to_string());
    let page_object = page.as_object();
    let job = page.to_job();
    assert_eq!(job.class, MAMAN_NAME);
    assert_eq!(job.retry, 25);
    assert_eq!(job.queue, MAMAN_NAME.to_string().to_lowercase());
    assert_eq!(job.args, vec![page_object]);
}

#[test]
fn job_payload_and_envelope() {
    let input = "<html><a href='/a'>a</a><a href='/b#x'>b</a></html>";
    let mut headers = BTreeMap::new();
    headers.insert("content-type".to_string(), "text/html".to_string());
    let page = Page::new(url("http://example.net/"), input.to_string(), headers.clone(), "200 OK".to_string());
    let page = read_page(page, input);
    let job = page.to_job();
    assert_eq!(job.class, "Maman");
    assert_eq!(job.queue, "maman");
    assert_eq!(job.retry, 25);
    assert_eq!(job.jid.chars().count(), 24);
    assert!(job.jid.chars().all(|c| c.is_ascii_alphanumeric()));
    assert_eq!(job.created_at, job.enqueued_at);
    assert!(job.created_at > 0);
    assert_eq!(job.args.len(), 1);
    let object = &job.args[0];
    assert_eq!(object.url, "http://example.net/");
    assert_eq!(object.document, input);
    assert_eq!(object.headers, headers);
    assert_eq!(object.status, "200 OK");
    assert_eq!(object.urls, vec!["http://example.net/a".to_string(), "http://example.net/b".to_string()]);
    let other = page.to_job();
    assert_ne!(job.jid, other.jid);
}

#[test]
fn rejected_links_add_nothing() {
    let base = "http://example.net/dir/page";
    assert!(links(base, "<a href='ftp://example.net/file'>").is_empty());
    assert!(links(base, "<a href='mailto:me@example.net'>").is_empty());
    assert!(links(base, "<a href='javascript:void(0)'>").is_empty());
    assert!(links(base, "<a href='http://[::1'>").is_empty());
    assert!(links(base, "<a href='http://example.net/dir/page'>").is_empty());
    assert!(links(base, "<a href='http://other.org/x'>").is_empty());
    assert!(links(base, "<a href='ftp://other.org/x'>").is_empty());
    assert!(links(base, "<a href='https://sub.example.net/x'>").is_empty());
}

#[test]
fn fragment_only_links_are_self_links() {
    let base = "http://example.net/dir/page";
    assert!(links(base, "<a href='#foo'><a href='#'>").is_empty());
    let page = new_page(base, "");
    assert!(page.can_enqueue("#top").is_none());
}

#[test]
fn relative_link_with_fragment_is_taken() {
    let base = "http://example.net/dir/page";
    assert_eq!(links(base, "<a href='/todo#new'>"), vec!["http://example.net/todo".to_string()]);
    assert_eq!(links(base, "<a href='other?q=1#x'>"), vec!["http://example.net/dir/other?q=1".to_string()]);
}

#[test]
fn links_keep_document_order_and_repeats() {
    let base = "https://example.net/";
    let found = links(base, "<a href='/b'><p><a href='/a'></a><a class='x' href='/b'><img href='/img'>");
    assert_eq!(
        found,
        vec![
            "https://example.net/b".to_string(),
            "https://example.net/a".to_string(),
            "https://example.net/b".to_string()
        ]
    );
}

#[test]
fn scheme_is_checked_after_resolution() {
    let page = new_page("https://example.net/x", "");
    let u = page.can_enqueue("http://example.net/y").unwrap();
    assert_eq!(u.as_str(), "http://example.net/y");
    assert_eq!(u.scheme(), "http");
}

#[test]
fn url_parts() {
    let mut u = url("HTTPS://Example.NET:8080/a/b?q#frag");
    assert_eq!(u.as_str(), "https://example.net:8080/a/b?q#frag");
    assert_eq!(u.scheme(), "https");
    assert_eq!(u.host(), Some("example.net".to_string()));
    assert!(u.is_web());
    assert_eq!(u.text_without_fragment(), "https://example.net:8080/a/b?q");
    u.clear_fragment();
    assert_eq!(u.as_str(), "https://example.net:8080/a/b?q");
    assert_eq!(url("http://127.0.0.1/").host(), Some("127.0.0.1".to_string()));
    assert!(!url("mailto:me@example.net").is_web());
    assert!(!url("ftp://example.net/").is_web());
    assert_eq!(WebUrl::parse("/relative").err(), Some(UrlError::RelativeWithoutBase));
    assert_eq!(WebUrl::parse("http://[::1").err(), Some(UrlError::Invalid));
    let joined = url("http://example.net/a/b").join("../c").unwrap();
    assert_eq!(joined.as_str(), "http://example.net/c");
    assert!(joined.same_as(&url("http://example.net/c")));
    assert!(!joined.same_as(&url("http://example.net/c#x")));
}

#[test]
fn robots_address() {
    let spider = Spider::new(url("http://example.net/some/page?x=1"), 0, Vec::new(), "development".to_string());
    assert_eq!(spider.robots_url().unwrap().as_str(), "http://example.net/robots.txt");
}

#[test]
fn robots_policy_fails_open() {
    let unreachable = RobotsPolicy::from_status(None);
    assert_eq!(unreachable.rules, RobotsRules::AllowAll);
    assert!(unreachable.permits(false));
    assert!(unreachable.permits(true));
    let read = RobotsPolicy::from_status(Some(200));
    assert_eq!(read.rules, RobotsRules::Listed);
    assert!(!read.permits(false));
    assert!(read.permits(true));
    for status in [401u16, 403] {
        let refused = RobotsPolicy::from_status(Some(status));
        assert_eq!(refused.rules, RobotsRules::DenyAll);
        assert!(!refused.permits(true));
    }
    for status in [404u16, 410, 500, 503, 301] {
        let missing = RobotsPolicy::from_status(Some(status));
        assert_eq!(missing.rules, RobotsRules::AllowAll);
        assert!(missing.permits(false));
    }
}

#[test]
fn visited_set_has_no_repeats() {
    let mut spider = Spider::new(url("http://example.net/"), 0, Vec::new(), "test".to_string());
    let first = spider.visit_page(read_page(new_page("http://example.net/", "<a href='/a'>"), "<a href='/a'>"));
    assert!(first.is_some());
    let again = spider.visit_page(read_page(new_page("http://example.net/", "<a href='/b'>"), "<a href='/b'>"));
    assert!(again.is_none());
    assert_eq!(spider.visited_urls.len(), 1);
    assert_eq!(spider.unvisited_urls.len(), 1);
    spider.visit_page(read_page(new_page("http://example.net/a", "<a href='/'>"), "<a href='/'>"));
    spider.visit_page(read_page(new_page("http://example.net/a", "<a href='/'>"), "<a href='/'>"));
    let seen: Vec<&str> = spider.visited_urls.iter().map(|u| u.as_str()).collect();
    assert_eq!(seen, vec!["http://example.net/", "http://example.net/a"]);
    assert!(spider.next_url().is_none());
    assert!(spider.unvisited_urls.is_empty());
}

#[test]
fn next_url_skips_visited_entries() {
    let mut spider = Spider::new(url("http://example.net/"), 0, Vec::new(), "test".to_string());
    let doc = "<a href='/x'><a href='/y'><a href='/x'>";
    spider.visit_page(read_page(new_page("http://example.net/", doc), doc));
    assert_eq!(spider.unvisited_urls.len(), 3);
    let top = spider.next_url().unwrap();
    assert_eq!(top.as_str(), "http://example.net/x");
    spider.visit_page(new_page("http://example.net/x", ""));
    let next = spider.next_url().unwrap();
    assert_eq!(next.as_str(), "http://example.net/y");
    spider.visit_page(new_page("http://example.net/y", ""));
    assert!(spider.next_url().is_none());
    assert!(spider.unvisited_urls.is_empty());
}

#[test]
fn limit_stops_the_crawl() {
    let mut spider = Spider::new(url("http://example.net/"), 2, Vec::new(), "test".to_string());
    let doc = "<a href='/x'><a href='/y'><a href='/z'>";
    assert!(spider.continue_to_crawl());
    spider.visit_page(read_page(new_page("http://example.net/", doc), doc));
    assert!(spider.continue_to_crawl());
    let u = spider.next_url().unwrap();
    assert_eq!(u.as_str(), "http://example.net/z");
    spider.visit_page(new_page(u.as_str(), ""));
    assert!(!spider.continue_to_crawl());
    assert!(spider.next_url().is_none());
    assert_eq!(spider.visited_urls.len(), 2);
    assert_eq!(spider.unvisited_urls.len(), 1);
    let negative = Spider::new(url("http://example.net/"), -1, Vec::new(), "test".to_string());
    assert!(!negative.continue_to_crawl());
}

fn serve(path: &str) -> Option<(u16, &'static str, &'static str)> {
    match path {
        "/" => Some((200, "text/html", "<html><a href='/hello'>hello</a>")),
        "/hello" => Some((200, "text/html; charset=utf-8", "<html><a href='/world'>world</a><a href='/plain'>p</a></html>")),
        "/world" => Some((200, "text/html", "<html>!</html>")),
        "/plain" => Some((200, "text/plain", "<a href='/hidden'>")),
        "/hidden" => Some((200, "text/html", "<html>hidden</html>")),
        _ => None,
    }
}

fn crawl(limit: isize, mime_types: Vec<MediaType>) -> (Vec<String>, usize) {
    let mut spider = Spider::new(url("http://example.net/"), limit, mime_types, "test".to_string());
    let mut jobs = 0;
    let mut current = Some(url("http://example.net/"));
    while let Some(u) = current {
        let path = u.as_str().trim_start_matches("http://example.net").to_string();
        if let Some((status, content_type, body)) = serve(&path) {
            if Spider::accepts_response(status, Some(content_type), &spider.mime_types) {
                let page = read_page(Page::new(u, body.to_string(), BTreeMap::new(), "200 OK".to_string()), body);
                if spider.visit_page(page).is_some() {
                    jobs += 1;
                }
            }
        }
        current = spider.next_url();
    }
    (spider.visited_urls.iter().map(|u| u.as_str().to_string()).collect(), jobs)
}

#[test]
fn crawl_goes_depth_first() {
    let (visited, jobs) = crawl(0, Vec::new());
    assert_eq!(
        visited,
        vec![
            "http://example.net/".to_string(),
            "http://example.net/hello".to_string(),
            "http://example.net/plain".to_string(),
            "http://example.net/hidden".to_string(),
            "http://example.net/world".to_string()
        ]
    );
    assert_eq!(jobs, 5);
}

#[test]
fn crawl_honours_the_limit() {
    let (visited, jobs) = crawl(2, Vec::new());
    assert_eq!(visited, vec!["http://example.net/".to_string(), "http://example.net/hello".to_string()]);
    assert_eq!(jobs, 2);
    let (one, _) = crawl(1, Vec::new());
    assert_eq!(one.len(), 1);
}

#[test]
fn crawl_with_html_only_skips_plain_text() {
    let (visited, jobs) = crawl(0, fetch_mime_types(Some("text/html".to_string())));
    assert_eq!(
        visited,
        vec![
            "http://example.net/".to_string(),
            "http://example.net/hello".to_string(),
            "http://example.net/world".to_string()
        ]
    );
    assert_eq!(jobs, 3);
}

#[test]
fn three_page_chain_visits_in_order() {
    let seed = "http://example.net/";
    let mut spider = Spider::new(url(seed), 0, Vec::new(), "test".to_string());
    let docs = [
        ("http://example.net/", "<html><a href='/hello'>hello</a>"),
        ("http://example.net/hello", "<html><a href='/world'>world</a></html>"),
        ("http://example.net/world", "<html>!</html>"),
    ];
    spider.visit_page(read_page(new_page(docs[0].0, docs[0].1), docs[0].1));
    while let Some(u) = spider.next_url() {
        let doc = docs.iter().find(|d| d.0 == u.as_str()).unwrap().1;
        spider.visit_page(read_page(Page::new(u, doc.to_string(), BTreeMap::new(), "200 OK".to_string()), doc));
    }
    let seen: Vec<&str> = spider.visited_urls.iter().map(|u| u.as_str()).collect();
    assert_eq!(seen, vec![docs[0].0, docs[1].0, docs[2].0]);
}

#[test]
fn response_gate() {
    let none: Vec<MediaType> = Vec::new();
    assert!(Spider::accepts_response(200, None, &none));
    assert!(Spider::accepts_response(304, Some("image/png"), &none));
    assert!(!Spider::accepts_response(404, Some("text/html"), &none));
    assert!(!Spider::accepts_response(500, None, &none));
    assert!(!Spider::accepts_response(301, Some("text/html"), &none));
    let html = fetch_mime_types(Some("text/html".to_string()));
    assert!(Spider::accepts_response(200, Some("text/html"), &html));
    assert!(Spider::accepts_response(200, Some("text/html; charset=utf-8"), &html));
    assert!(Spider::accepts_response(200, Some("TEXT/HTML"), &html));
    assert!(!Spider::accepts_response(200, Some("text/plain"), &html));
    assert!(!Spider::accepts_response(200, None, &html));
    assert!(!Spider::accepts_response(200, Some("not a type"), &html));
    assert!(!Spider::accepts_response(404, Some("text/html"), &html));
}

#[test]
fn media_type_parts() {
    let m = MediaType::parse("Application/RSS+XML; Charset=UTF-8").unwrap();
    assert_eq!(m.as_str(), "application/rss+xml; charset=utf-8");
    let e = m.essence().unwrap();
    assert_eq!(e.as_str(), "application/rss");
    let rss = fetch_mime_types(Some("application/rss".to_string()));
    assert!(Spider::accepts_response(200, Some("Application/RSS+XML; Charset=UTF-8"), &rss));
    let xml = fetch_mime_types(Some("application/xml".to_string()));
    assert!(!Spider::accepts_response(200, Some("application/rss+xml"), &xml));
    let with_params = fetch_mime_types(Some("text/html;charset=utf-8".to_string()));
    assert!(!Spider::accepts_response(200, Some("text/html; charset=utf-8"), &with_params));
    assert!(MediaType::parse("nonsense").is_none());
}

#[test]
fn limit_argument() {
    assert_eq!(fetch_limit(Some("25".to_string())), 25);
    assert_eq!(fetch_limit(Some("+7".to_string())), 7);
    assert_eq!(fetch_limit(Some("-3".to_string())), -3);
    assert_eq!(fetch_limit(Some("abc".to_string())), 0);
    assert_eq!(fetch_limit(Some(" 5".to_string())), 0);
    assert_eq!(fetch_limit(Some("".to_string())), 0);
    assert_eq!(fetch_limit(Some("99999999999999999999999".to_string())), 0);
    assert_eq!(fetch_limit(None), 0);
}

#[test]
fn mime_types_argument() {
    let texts = |v: Vec<MediaType>| v.iter().map(|m| m.as_str().to_string()).collect::<Vec<String>>();
    assert!(fetch_mime_types(None).is_empty());
    assert!(fetch_mime_types(Some("".to_string())).is_empty());
    assert_eq!(
        texts(fetch_mime_types(Some("text/html  bogus Text/Plain".to_string()))),
        vec!["text/html".to_string(), "text/plain".to_string()]
    );
    assert_eq!(texts(fetch_mime_types(Some("application/json ".to_string()))), vec!["application/json".to_string()]);
}

#[test]
fn self_link_ignores_the_page_fragment() {
    let base = "http://example.net/#top";
    assert!(links(base, "<a href='/'><a href='http://example.net/'><a href='#other'>").is_empty());
    assert_eq!(links(base, "<a href='/next'>"), vec!["http://example.net/next".to_string()]);
}

#[test]
fn other_ip_hosts_are_other_sites() {
    let base = "http://10.0.0.1/";
    assert!(links(base, "<a href='http://10.0.0.2/x'>").is_empty());
    assert_eq!(links(base, "<a href='/y'>"), vec!["http://10.0.0.1/y".to_string()]);
    assert!(links("http://example.net/", "<a href='http://example.org/'>").is_empty());
}
