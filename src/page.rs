//! Pages, the links read from them, and the job records made of them.

use vstd::prelude::*;
use std::collections::BTreeMap;
use crate::address::{
    host_of, is_fragment_ref, is_web_scheme, is_web_url, opt_text, opt_url, scheme_of,
    url_join_of, url_parse_of, url_texts, without_fragment, UrlError, WebUrl,
};

verus! {

/// The name under which the crawler presents itself and files its jobs.
pub const MAMAN_NAME: &'static str = "Maman";

/// The number of retries a job is allowed.
pub const JOB_RETRY: i64 = 25;

/// What `str::to_lowercase` makes of a string.
pub uninterp spec fn lower_of(s: Seq<char>) -> Seq<char>;

/// A character in ASCII lower case.
pub open spec fn ascii_lower(c: char) -> char {
    if 'A' <= c <= 'Z' {
        ((c as u32) + 32) as char
    } else {
        c
    }
}

/// Whether every character of `s` is ASCII.
pub open spec fn all_ascii(s: Seq<char>) -> bool {
    forall|i: int| 0 <= i < s.len() ==> (#[trigger] s[i] as u32) < 128
}

/// Relies on `str::to_lowercase`; ASCII letters map to their ASCII lower
/// case and other ASCII characters stay as they are.
#[verifier::external_body]
fn lowercase(s: &str) -> (r: String)
    ensures
        r@ == lower_of(s@),
        all_ascii(s@) ==> r@ == s@.map_values(|c: char| ascii_lower(c)),
{
    s.to_lowercase()
}

/// The parts of a job that are fresh for each job: its retry budget, its id
/// and its timestamps.
pub struct JobOptions {
    pub retry: i64,
    pub jid: String,
    pub created_at: u64,
    pub enqueued_at: u64,
}

/// Relies on `sidekiq::JobOpts::default`: a retry budget of 25, an id of 24
/// random alphanumeric characters, and the current time, in seconds since
/// the epoch, as both timestamps.
#[verifier::external_body]
fn default_job_options() -> (r: JobOptions)
    ensures
        r.retry == 25,
        r.jid@.len() == 24,
        r.created_at == r.enqueued_at,
{
    let o: sidekiq::JobOpts = Default::default();
    JobOptions { retry: o.retry, jid: o.jid, created_at: o.created_at, enqueued_at: o.enqueued_at }
}

/// An attribute of an HTML tag.
#[derive(Clone, Debug, PartialEq, Eq)]
pub struct Attribute {
    pub name: String,
    pub value: String,
}

/// An HTML tag as the tokenizer hands it over: its lower-case name and its
/// attributes, in document order.
#[derive(Clone, Debug, PartialEq, Eq)]
pub struct Tag {
    pub name: String,
    pub attrs: Vec<Attribute>,
}

/// A fetched page and the links read from it so far.
pub struct Page {
    pub url: WebUrl,
    pub document: String,
    pub headers: BTreeMap<String, String>,
    pub status: String,
    pub urls: Vec<WebUrl>,
}

/// The payload object of a job: a page as the queue's consumer reads it.
#[derive(Clone, Debug, PartialEq, Eq)]
pub struct PageObject {
    pub url: String,
    pub document: String,
    pub headers: BTreeMap<String, String>,
    pub status: String,
    pub urls: Vec<String>,
}

/// A unit of work for the queue.
#[derive(Clone, Debug, PartialEq, Eq)]
pub struct Job {
    pub class: String,
    pub args: Vec<PageObject>,
    pub retry: i64,
    pub queue: String,
    pub jid: String,
    pub created_at: u64,
    pub enqueued_at: u64,
}

/// What a link `href` on the page at `base` refers to: `href` read as an
/// absolute URL, or, where it is relative, resolved against `base`.
pub open spec fn resolved(base: Seq<char>, href: Seq<char>) -> Option<Seq<char>> {
    match url_parse_of(href) {
        Ok(t) => Some(t),
        Err(UrlError::RelativeWithoutBase) => match url_join_of(base, href) {
            Ok(t) => Some(t),
            Err(_) => None,
        },
        Err(UrlError::Invalid) => None,
    }
}

/// The URL that the link `href` on the page at `base` adds to the crawl, if
/// any: the link resolved, without its fragment, over `http` or `https`,
/// other than the page itself (fragments aside) and on the page's own host.
pub open spec fn link_target(base: Seq<char>, href: Seq<char>) -> Option<Seq<char>> {
    match resolved(base, href) {
        None => None,
        Some(t) => {
            let u = without_fragment(t);
            if is_web_scheme(scheme_of(u)) && u != without_fragment(base) && host_of(u) == host_of(
                base,
            ) {
                Some(u)
            } else {
                None
            }
        },
    }
}

/// A link is taken only if it resolves, its scheme is `http` or `https`, it
/// is not the page itself, and it is on the page's host: links that do not
/// parse, other schemes, self-links and links to other hosts add nothing.
pub proof fn lemma_taken_links_are_eligible(base: Seq<char>, href: Seq<char>)
    ensures
        link_target(base, href) is Some ==> {
            let u = link_target(base, href)->Some_0;
            &&& resolved(base, href) is Some
            &&& u == without_fragment(resolved(base, href)->Some_0)
            &&& is_web_scheme(scheme_of(u))
            &&& u != without_fragment(base)
            &&& host_of(u) == host_of(base)
        },
        resolved(base, href) is None ==> link_target(base, href) is None,
{
}

/// A link that, without its fragment, is the page's own URL, fragments
/// aside, is never taken.
pub proof fn lemma_self_links_rejected(base: Seq<char>, href: Seq<char>)
    requires
        resolved(base, href) is Some,
        without_fragment(resolved(base, href)->Some_0) == without_fragment(base),
    ensures
        link_target(base, href) is None,
{
}

/// A link to another host is never taken, whatever its scheme.
pub proof fn lemma_cross_host_rejected(base: Seq<char>, href: Seq<char>)
    requires
        resolved(base, href) is Some,
        host_of(without_fragment(resolved(base, href)->Some_0)) != host_of(base),
    ensures
        link_target(base, href) is None,
{
}

/// The URLs that the attributes `attrs` of an anchor add, in order.
pub open spec fn href_targets(base: Seq<char>, attrs: Seq<Attribute>) -> Seq<Seq<char>>
    decreases attrs.len(),
{
    if attrs.len() == 0 {
        Seq::empty()
    } else {
        let prev = href_targets(base, attrs.drop_last());
        let a = attrs.last();
        if a.name@ == "href"@ {
            match link_target(base, a.value@) {
                Some(u) => prev.push(u),
                None => prev,
            }
        } else {
            prev
        }
    }
}

/// The URLs that the tag `tag` on the page at `base` adds: those of its
/// `href` attributes where it is an anchor, none otherwise.
pub open spec fn tag_targets(base: Seq<char>, tag: Tag) -> Seq<Seq<char>> {
    if tag.name@ == "a"@ {
        href_targets(base, tag.attrs@)
    } else {
        Seq::empty()
    }
}

/// Whether `o` is the payload object of the page `p`.
pub open spec fn describes(o: PageObject, p: Page) -> bool {
    &&& o.url@ == p.url@
    &&& o.document@ == p.document@
    &&& o.headers@ == p.headers@
    &&& o.status@ == p.status@
    &&& o.urls@.map_values(|s: String| s@) == url_texts(p.urls@)
}

/// Whether `j` is a job for the page `p`: filed under the crawler's name, in
/// the queue named by it in lower case (`maman`), with the page's payload object as its
/// one argument.
pub open spec fn job_for(j: Job, p: Page) -> bool {
    &&& j.class@ == MAMAN_NAME@
    &&& j.queue@ == lower_of(MAMAN_NAME@)
    &&& j.queue@ == "maman"@
    &&& j.args@.len() == 1
    &&& describes(j.args@[0], p)
}

/// Whether two optional strings hold the same characters.
fn same_text(a: &Option<String>, b: &Option<String>) -> (r: bool)
    ensures
        r == (opt_text(*a) == opt_text(*b)),
{
    match (a, b) {
        (Some(x), Some(y)) => *x == *y,
        (None, None) => true,
        _ => false,
    }
}

impl Page {
    /// Whether the page's address is an `http` or `https` URL, the only
    /// kind the crawl fetches.
    pub open spec fn wf(&self) -> bool {
        is_web_url(self.url@)
    }

    /// A page fetched from the `http` or `https` address `url`, with no
    /// links read yet.
    pub fn new(url: WebUrl, document: String, headers: BTreeMap<String, String>, status: String) -> (r: Page)
        requires
            is_web_url(url@),
        ensures
            r.wf(),
            r.url@ == url@,
            r.document == document,
            r.headers == headers,
            r.status == status,
            r.urls@.len() == 0,
    {
        Page { url, document, headers, status, urls: Vec::new() }
    }

    /// The link `url` read as an absolute URL, or resolved against the page.
    pub fn normalize_url(&self, url: &str) -> (r: Option<WebUrl>)
        requires
            self.wf(),
        ensures
            opt_url(r) == resolved(self.url@, url@),
            is_fragment_ref(url@) ==> r is Some && without_fragment(r->Some_0@) == without_fragment(
                self.url@,
            ),
    {
        match WebUrl::parse(url) {
            Ok(u) => Some(u),
            Err(UrlError::RelativeWithoutBase) => match self.url.join(url) {
                Ok(u) => Some(u),
                Err(_) => None,
            },
            Err(UrlError::Invalid) => None,
        }
    }

    /// The link `url`, resolved, without its fragment.
    pub fn url_without_fragment(&self, url: &str) -> (r: Option<WebUrl>)
        requires
            self.wf(),
        ensures
            opt_url(r) == match resolved(self.url@, url@) {
                Some(t) => Some(without_fragment(t)),
                None => None,
            },
            is_fragment_ref(url@) ==> r is Some && r->Some_0@ == without_fragment(self.url@),
    {
        match self.normalize_url(url) {
            Some(u) => {
                let mut u = u;
                u.clear_fragment();
                Some(u)
            },
            None => None,
        }
    }

    /// Whether `url` is the page's own URL, the page's fragment aside.
    pub fn url_eq(&self, url: &WebUrl) -> (r: bool)
        ensures
            r == (without_fragment(self.url@) == url@),
    {
        let own = self.url.text_without_fragment();
        let other = url.to_text();
        own == other
    }

    /// Whether `url` is on the page's host.
    pub fn host_eq(&self, url: &WebUrl) -> (r: bool)
        requires
            self.wf(),
            is_web_url(url@),
        ensures
            r == (host_of(self.url@) == host_of(url@)),
    {
        let a = self.url.host();
        let b = url.host();
        same_text(&a, &b)
    }

    /// The URL that the link `url` adds to the crawl, if any.
    pub fn can_enqueue(&self, url: &str) -> (r: Option<WebUrl>)
        requires
            self.wf(),
        ensures
            opt_url(r) == link_target(self.url@, url@),
            is_fragment_ref(url@) ==> r is None,
    {
        match self.url_without_fragment(url) {
            Some(u) => {
                let scheme = u.scheme();
                let http = "http".to_string();
                let https = "https".to_string();
                proof {
                    reveal_strlit("http");
                    reveal_strlit("https");
                }
                if scheme == http || scheme == https {
                    if !self.url_eq(&u) && self.host_eq(&u) {
                        Some(u)
                    } else {
                        None
                    }
                } else {
                    None
                }
            },
            None => None,
        }
    }

    /// Reads one tag of the page: each `href` of an anchor whose link the
    /// crawl takes is added to the page's URLs, in order.
    pub fn process_tag(&mut self, tag: &Tag)
        requires
            old(self).wf(),
        ensures
            final(self).wf(),
            final(self).url == old(self).url,
            final(self).document == old(self).document,
            final(self).headers == old(self).headers,
            final(self).status == old(self).status,
            url_texts(final(self).urls@) == url_texts(old(self).urls@) + tag_targets(
                old(self).url@,
                *tag,
            ),
    {
        let anchor = "a".to_string();
        let href = "href".to_string();
        proof {
            reveal_strlit("a");
            reveal_strlit("href");
        }
        if tag.name == anchor {
            let ghost start = url_texts(self.urls@);
            let mut i: usize = 0;
            while i < tag.attrs.len()
                invariant
                    i <= tag.attrs@.len(),
                    href@ == "href"@,
                    self.wf(),
                    self.url == old(self).url,
                    self.document == old(self).document,
                    self.headers == old(self).headers,
                    self.status == old(self).status,
                    start == url_texts(old(self).urls@),
                    url_texts(self.urls@) == start + href_targets(
                        self.url@,
                        tag.attrs@.subrange(0, i as int),
                    ),
                decreases tag.attrs.len() - i,
            {
                let ghost before = url_texts(self.urls@);
                let attr = &tag.attrs[i];
                assert(tag.attrs@.subrange(0, i + 1).drop_last() =~= tag.attrs@.subrange(0, i as int));
                if attr.name == href {
                    match self.can_enqueue(attr.value.as_str()) {
                        Some(u) => {
                            self.urls.push(u);
                            assert(url_texts(self.urls@) =~= before.push(u@));
                        },
                        None => {},
                    }
                }
                i = i + 1;
            }
            assert(tag.attrs@.subrange(0, tag.attrs@.len() as int) =~= tag.attrs@);
        }
    }

    /// The page's payload object.
    pub fn as_object(&self) -> (r: PageObject)
        ensures
            describes(r, *self),
    {
        let mut urls: Vec<String> = Vec::new();
        let mut i: usize = 0;
        while i < self.urls.len()
            invariant
                i <= self.urls@.len(),
                urls@.map_values(|s: String| s@) == url_texts(self.urls@).subrange(0, i as int),
            decreases self.urls.len() - i,
        {
            let ghost before = urls@;
            urls.push(self.urls[i].to_text());
            assert(urls@.map_values(|s: String| s@) =~= before.map_values(|s: String| s@).push(
                self.urls@[i as int]@,
            ));
            assert(url_texts(self.urls@).subrange(0, i + 1) =~= url_texts(self.urls@).subrange(
                0,
                i as int,
            ).push(self.urls@[i as int]@));
            i = i + 1;
        }
        assert(url_texts(self.urls@).subrange(0, i as int) =~= url_texts(self.urls@));
        PageObject {
            url: self.url.to_text(),
            document: self.document.clone(),
            headers: self.headers.clone(),
            status: self.status.clone(),
            urls,
        }
    }

    /// The job for the page, with the given fresh parts.
    pub fn job_with(&self, opts: JobOptions) -> (r: Job)
        ensures
            job_for(r, *self),
            r.retry == opts.retry,
            r.jid == opts.jid,
            r.created_at == opts.created_at,
            r.enqueued_at == opts.enqueued_at,
    {
        let object = self.as_object();
        let class = MAMAN_NAME.to_string();
        let queue = lowercase(MAMAN_NAME);
        proof {
            reveal_strlit("Maman");
            reveal_strlit("maman");
            assert(all_ascii(MAMAN_NAME@));
            assert(queue@ =~= "maman"@);
        }
        let mut args: Vec<PageObject> = Vec::new();
        args.push(object);
        Job {
            class,
            args,
            retry: opts.retry,
            queue,
            jid: opts.jid,
            created_at: opts.created_at,
            enqueued_at: opts.enqueued_at,
        }
    }

    /// The job for the page: a fresh id, the current time as both
    /// timestamps, and the default retry budget.
    pub fn to_job(&self) -> (r: Job)
        ensures
            job_for(r, *self),
            r.retry == JOB_RETRY,
            r.jid@.len() == 24,
            r.created_at == r.enqueued_at,
    {
        self.job_with(default_job_options())
    }
}

} // verus!
