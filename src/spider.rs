//! The crawl: the frontier of URLs still to visit, the URLs visited, and the
//! decisions of each step. Fetching, the robots policy and the queue are the
//! caller's; it hands their outcomes to these functions.

use vstd::prelude::*;
use crate::address::{is_web_url, opt_url, url_join_of, url_texts, WebUrl};
use crate::media::{content_type_allowed, content_type_passes, texts, MediaType};
use crate::page::{job_for, Job, Page, JOB_RETRY};

verus! {

/// The state of one crawl.
pub struct Spider {
    /// The seed address; its origin is the site crawled.
    pub base_url: WebUrl,
    /// The URLs visited, in order.
    pub visited_urls: Vec<WebUrl>,
    /// The stack of URLs found and not yet taken; its top is the last entry.
    pub unvisited_urls: Vec<WebUrl>,
    /// The environment the crawler runs in, which names the queue's namespace.
    pub env: String,
    /// The most pages to visit; 0 sets no bound.
    pub limit: isize,
    /// The media types a page may have; an empty list allows all.
    pub mime_types: Vec<MediaType>,
}

/// What the answer to the request for `/robots.txt` makes of the site's
/// robots policy.
#[derive(Clone, Copy, Debug, PartialEq, Eq, Structural)]
pub enum RobotsRules {
    /// Every URL may be visited: the policy could not be had.
    AllowAll,
    /// No URL may be visited: the server refused the policy (401 or 403).
    DenyAll,
    /// The policy was read; its rules decide.
    Listed,
}

/// The robots policy's part in the crawl.
pub struct RobotsPolicy {
    pub rules: RobotsRules,
}

/// The rules for an answer with status `status` to the request for
/// `/robots.txt` (none where it could not be fetched or read): a policy read
/// with `200 OK` decides, `401` and `403` forbid everything, and anything
/// else leaves the crawl unrestricted.
pub open spec fn rules_for(status: Option<u16>) -> RobotsRules {
    match status {
        Some(s) => if s == 200 {
            RobotsRules::Listed
        } else if s == 401 || s == 403 {
            RobotsRules::DenyAll
        } else {
            RobotsRules::AllowAll
        },
        None => RobotsRules::AllowAll,
    }
}

/// Whether the rules `rules` let a URL through, where the policy's own
/// verdict on it is `verdict`.
pub open spec fn robots_permit(rules: RobotsRules, verdict: bool) -> bool {
    match rules {
        RobotsRules::AllowAll => true,
        RobotsRules::DenyAll => false,
        RobotsRules::Listed => verdict,
    }
}

/// Whether a crawl that has visited `count` pages under the limit `limit` goes on.
pub open spec fn crawl_continues(limit: int, count: int) -> bool {
    limit == 0 || count < limit
}

/// Whether no URL occurs twice in `s`.
pub open spec fn no_repeats(s: Seq<Seq<char>>) -> bool {
    forall|i: int, j: int| 0 <= i < j < s.len() ==> s[i] != s[j]
}

/// The position of the topmost entry of `stack` that `visited` does not hold.
pub open spec fn top_unvisited(visited: Seq<Seq<char>>, stack: Seq<Seq<char>>) -> Option<int>
    decreases stack.len(),
{
    if stack.len() == 0 {
        None
    } else if visited.contains(stack.last()) {
        top_unvisited(visited, stack.drop_last())
    } else {
        Some(stack.len() - 1)
    }
}

/// The position in `stack` of the URL that the crawl visits next, if any.
pub open spec fn next_pick(limit: int, visited: Seq<Seq<char>>, stack: Seq<Seq<char>>) -> Option<int> {
    if stack.len() == 0 || !crawl_continues(limit, visited.len() as int) {
        None
    } else {
        top_unvisited(visited, stack)
    }
}

/// How many entries of `stack` remain once the next URL has been taken:
/// taking pops the stack down to the URL handed out, and pops one entry
/// where the limit is reached.
pub open spec fn kept_after_pick(limit: int, visited: Seq<Seq<char>>, stack: Seq<Seq<char>>) -> int {
    if stack.len() == 0 {
        0
    } else if !crawl_continues(limit, visited.len() as int) {
        stack.len() - 1
    } else {
        match top_unvisited(visited, stack) {
            Some(i) => i,
            None => 0,
        }
    }
}

/// The visited URLs after a visit of the page at `u`.
pub open spec fn visited_after(visited: Seq<Seq<char>>, u: Seq<char>) -> Seq<Seq<char>> {
    if visited.contains(u) {
        visited
    } else {
        visited.push(u)
    }
}

/// Whether a response with status `status` and `Content-Type` header
/// `content_type` is a page for the crawl under the allow-list `allow`.
pub open spec fn response_accepted(status: u16, content_type: Option<Seq<char>>, allow: Seq<Seq<char>>) -> bool {
    (status == 200 || status == 304) && content_type_allowed(content_type, allow)
}

proof fn lemma_top_unvisited_bounds(visited: Seq<Seq<char>>, stack: Seq<Seq<char>>)
    ensures
        match top_unvisited(visited, stack) {
            Some(i) => 0 <= i < stack.len() && !visited.contains(stack[i]) && forall|j: int|
                i < j < stack.len() ==> visited.contains(#[trigger] stack[j]),
            None => forall|j: int| 0 <= j < stack.len() ==> visited.contains(#[trigger] stack[j]),
        },
    decreases stack.len(),
{
    if stack.len() > 0 {
        let rest = stack.drop_last();
        lemma_top_unvisited_bounds(visited, rest);
        assert forall|j: int| 0 <= j < rest.len() implies rest[j] == stack[j] by {}
        assert(stack[stack.len() - 1] == stack.last());
    }
}

/// With a positive limit, a crawl that starts within the limit and visits
/// only the URLs handed out by `next_url` stays within it.
pub proof fn lemma_visits_within_limit(limit: int, visited: Seq<Seq<char>>, stack: Seq<Seq<char>>)
    requires
        limit > 0,
        visited.len() <= limit,
        next_pick(limit, visited, stack) is Some,
    ensures
        visited_after(visited, stack[next_pick(limit, visited, stack)->Some_0]).len() <= limit,
{
    lemma_top_unvisited_bounds(visited, stack);
}

/// Without a limit, the crawl ends only once the frontier is exhausted: when
/// `next_url` hands out nothing, it has emptied the stack and every URL
/// that was on it had been visited.
pub proof fn lemma_unbounded_crawl_exhausts_frontier(visited: Seq<Seq<char>>, stack: Seq<Seq<char>>)
    requires
        next_pick(0, visited, stack) is None,
    ensures
        kept_after_pick(0, visited, stack) == 0,
        forall|j: int| 0 <= j < stack.len() ==> visited.contains(#[trigger] stack[j]),
{
    lemma_top_unvisited_bounds(visited, stack);
}

/// A crawl without a limit from a seed page that links only to `a`, where
/// `a` links only to `b` and `b` links nowhere, visits the seed, `a` and `b`
/// in that order and then ends: each step takes the one URL on the stack,
/// which leaves it empty until the visited page's links are pushed.
pub proof fn lemma_chain_crawled_in_order(seed: Seq<char>, a: Seq<char>, b: Seq<char>)
    requires
        seed != a,
        seed != b,
        a != b,
    ensures
        visited_after(Seq::empty(), seed) == seq![seed],
        next_pick(0, seq![seed], seq![a]) == Some(0int),
        kept_after_pick(0, seq![seed], seq![a]) == 0,
        visited_after(seq![seed], a) == seq![seed, a],
        next_pick(0, seq![seed, a], seq![b]) == Some(0int),
        kept_after_pick(0, seq![seed, a], seq![b]) == 0,
        visited_after(seq![seed, a], b) == seq![seed, a, b],
        next_pick(0, seq![seed, a, b], Seq::empty()) is None,
{
    assert(!Seq::<Seq<char>>::empty().contains(seed));
    assert(Seq::<Seq<char>>::empty().push(seed) =~= seq![seed]);
    assert(seq![a].last() == a);
    assert(!seq![seed].contains(a)) by {
        assert(seq![seed][0] == seed);
    }
    assert(seq![seed].push(a) =~= seq![seed, a]);
    assert(seq![b].last() == b);
    assert(!seq![seed, a].contains(b)) by {
        assert(seq![seed, a][0] == seed);
        assert(seq![seed, a][1] == a);
    }
    assert(seq![seed, a].push(b) =~= seq![seed, a, b]);
}

impl RobotsPolicy {
    /// The policy after an answer with status `status` to the request for
    /// `/robots.txt`, or none where it could not be fetched or read.
    pub fn from_status(status: Option<u16>) -> (r: RobotsPolicy)
        ensures
            r.rules == rules_for(status),
    {
        let rules = match status {
            Some(s) => if s == 200 {
                RobotsRules::Listed
            } else if s == 401 || s == 403 {
                RobotsRules::DenyAll
            } else {
                RobotsRules::AllowAll
            },
            None => RobotsRules::AllowAll,
        };
        RobotsPolicy { rules }
    }

    /// Whether a URL on which the policy's rules give `verdict` may be visited.
    pub fn permits(&self, verdict: bool) -> (r: bool)
        ensures
            r == robots_permit(self.rules, verdict),
    {
        match self.rules {
            RobotsRules::AllowAll => true,
            RobotsRules::DenyAll => false,
            RobotsRules::Listed => verdict,
        }
    }
}

impl Spider {
    /// A crawl from `base_url` that has visited nothing yet.
    pub fn new(base_url: WebUrl, limit: isize, mime_types: Vec<MediaType>, env: String) -> (r: Spider)
        ensures
            r.base_url@ == base_url@,
            r.limit == limit,
            r.mime_types == mime_types,
            r.env == env,
            r.visited_urls@.len() == 0,
            r.unvisited_urls@.len() == 0,
            no_repeats(url_texts(r.visited_urls@)),
    {
        Spider {
            base_url,
            visited_urls: Vec::new(),
            unvisited_urls: Vec::new(),
            env,
            limit,
            mime_types,
        }
    }

    /// The address of the site's robots policy.
    pub fn robots_url(&self) -> (r: Option<WebUrl>)
        requires
            is_web_url(self.base_url@),
        ensures
            opt_url(r) == match url_join_of(self.base_url@, "/robots.txt"@) {
                Ok(t) => Some(t),
                Err(_) => None,
            },
    {
        match self.base_url.join("/robots.txt") {
            Ok(u) => Some(u),
            Err(_) => None,
        }
    }

    /// Whether the crawl goes on: there is no limit, or fewer pages than
    /// the limit have been visited.
    pub fn continue_to_crawl(&self) -> (r: bool)
        ensures
            r == crawl_continues(self.limit as int, self.visited_urls@.len() as int),
    {
        self.limit == 0 || (self.limit > 0 && self.visited_urls.len() < self.limit as usize)
    }

    /// Whether `url` has been visited.
    pub fn is_visited(&self, url: &WebUrl) -> (r: bool)
        ensures
            r == url_texts(self.visited_urls@).contains(url@),
    {
        let mut i: usize = 0;
        while i < self.visited_urls.len()
            invariant
                i <= self.visited_urls@.len(),
                forall|j: int| 0 <= j < i ==> #[trigger] self.visited_urls@[j]@ != url@,
            decreases self.visited_urls.len() - i,
        {
            if self.visited_urls[i].same_as(url) {
                assert(url_texts(self.visited_urls@)[i as int] == url@);
                return true;
            }
            i = i + 1;
        }
        proof {
            if url_texts(self.visited_urls@).contains(url@) {
                let j = choose|j: int|
                    0 <= j < url_texts(self.visited_urls@).len() && url_texts(self.visited_urls@)[j]
                        == url@;
                assert(self.visited_urls@[j]@ == url@);
            }
        }
        false
    }

    /// Whether a response is a page for the crawl: its status is `200 OK` or
    /// `304 Not Modified`, and its `Content-Type` passes the allow-list.
    pub fn accepts_response(status: u16, content_type: Option<&str>, mime_types: &Vec<MediaType>) -> (r: bool)
        ensures
            r == response_accepted(
                status,
                match content_type {
                    Some(h) => Some(h@),
                    None => None,
                },
                texts(mime_types@),
            ),
    {
        (status == 200 || status == 304) && content_type_passes(content_type, mime_types)
    }

    /// Takes the next URL to visit off the frontier: entries already visited
    /// are popped and dropped; once the limit is reached one entry is popped
    /// and the crawl ends.
    pub fn next_url(&mut self) -> (r: Option<WebUrl>)
        ensures
            final(self).base_url == old(self).base_url,
            final(self).visited_urls == old(self).visited_urls,
            final(self).env == old(self).env,
            final(self).limit == old(self).limit,
            final(self).mime_types == old(self).mime_types,
            final(self).unvisited_urls@ == old(self).unvisited_urls@.subrange(
                0,
                kept_after_pick(
                    old(self).limit as int,
                    url_texts(old(self).visited_urls@),
                    url_texts(old(self).unvisited_urls@),
                ),
            ),
            opt_url(r) == match next_pick(
                old(self).limit as int,
                url_texts(old(self).visited_urls@),
                url_texts(old(self).unvisited_urls@),
            ) {
                Some(i) => Some(old(self).unvisited_urls@[i]@),
                None => None,
            },
    {
        let ghost visited = url_texts(self.visited_urls@);
        let ghost stack = url_texts(self.unvisited_urls@);
        let ghost start = self.unvisited_urls@;
        let ghost limit = self.limit as int;
        proof {
            lemma_top_unvisited_bounds(visited, stack);
        }
        let goes_on = self.continue_to_crawl();
        loop
            invariant
                self.base_url == old(self).base_url,
                self.visited_urls == old(self).visited_urls,
                self.env == old(self).env,
                self.limit == old(self).limit,
                self.mime_types == old(self).mime_types,
                visited == url_texts(self.visited_urls@),
                stack == url_texts(start),
                start == old(self).unvisited_urls@,
                limit == self.limit as int,
                goes_on == crawl_continues(limit, visited.len() as int),
                self.unvisited_urls@.len() <= start.len(),
                self.unvisited_urls@ == start.subrange(0, self.unvisited_urls@.len() as int),
                self.unvisited_urls@.len() < start.len() ==> goes_on,
                self.unvisited_urls@.len() < start.len() ==> top_unvisited(visited, stack)
                    == top_unvisited(visited, stack.subrange(0, self.unvisited_urls@.len() as int)),
            decreases self.unvisited_urls@.len(),
        {
            let ghost n = self.unvisited_urls@.len() as int;
            proof {
                assert(stack.subrange(0, start.len() as int) =~= stack);
            }
            match self.unvisited_urls.pop() {
                None => {
                    proof {
                        assert(stack.subrange(0, 0) =~= Seq::<Seq<char>>::empty());
                    }
                    return None;
                },
                Some(url) => {
                    assert(stack.subrange(0, n).last() == url@);
                    assert(stack.subrange(0, n).drop_last() =~= stack.subrange(0, n - 1));
                    if goes_on {
                        let seen = self.is_visited(&url);
                        if !seen {
                            return Some(url);
                        }
                    } else {
                        return None;
                    }
                },
            }
        }
    }

    /// Records a visited page: its URL joins the visited ones and the URLs
    /// read from it go on the frontier, in order, the last on top. The job
    /// for the page comes back for the queue. A page whose URL was visited
    /// already changes nothing and yields no job.
    pub fn visit_page(&mut self, page: Page) -> (r: Option<Job>)
        ensures
            final(self).base_url == old(self).base_url,
            final(self).env == old(self).env,
            final(self).limit == old(self).limit,
            final(self).mime_types == old(self).mime_types,
            url_texts(old(self).visited_urls@).contains(page.url@) ==> {
                &&& r is None
                &&& final(self).visited_urls == old(self).visited_urls
                &&& final(self).unvisited_urls == old(self).unvisited_urls
            },
            !url_texts(old(self).visited_urls@).contains(page.url@) ==> {
                &&& r is Some
                &&& job_for(r->Some_0, page)
                &&& r->Some_0.retry == JOB_RETRY
                &&& r->Some_0.created_at == r->Some_0.enqueued_at
                &&& url_texts(final(self).visited_urls@) == url_texts(old(self).visited_urls@).push(
                    page.url@,
                )
                &&& url_texts(final(self).unvisited_urls@) == url_texts(old(self).unvisited_urls@)
                    + url_texts(page.urls@)
            },
            url_texts(final(self).visited_urls@) == visited_after(
                url_texts(old(self).visited_urls@),
                page.url@,
            ),
            no_repeats(url_texts(old(self).visited_urls@)) ==> no_repeats(
                url_texts(final(self).visited_urls@),
            ),
    {
        if self.is_visited(&page.url) {
            return None;
        }
        let job = page.to_job();
        let ghost p = page;
        let Page { url, urls, .. } = page;
        let ghost v0 = url_texts(self.visited_urls@);
        self.visited_urls.push(url);
        assert(url_texts(self.visited_urls@) =~= v0.push(p.url@));
        let ghost s0 = self.unvisited_urls@;
        let mut rest = urls;
        self.unvisited_urls.append(&mut rest);
        assert(url_texts(self.unvisited_urls@) =~= url_texts(s0) + url_texts(p.urls@));
        Some(job)
    }
}

} // verus!
