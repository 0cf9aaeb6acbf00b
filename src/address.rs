//! Absolute URLs, parsed and resolved by the `url` crate.

use vstd::prelude::*;

verus! {

#[verifier::external_type_specification]
#[verifier::external_body]
pub struct ExUrl(url::Url);

/// Why a string could not be read as a URL.
#[derive(Clone, Copy, Debug, PartialEq, Eq, Structural)]
pub enum UrlError {
    /// The string is a relative reference and no base was given.
    RelativeWithoutBase,
    /// Any other syntax error.
    Invalid,
}

/// An absolute URL together with its serialization.
///
/// Values are made only by the functions of this module, which keep `text`
/// equal to the serialization of `inner`.
pub struct WebUrl {
    inner: url::Url,
    text: String,
}

/// What `url::Url::parse` makes of a string: the serialization of the URL, or the error.
pub uninterp spec fn url_parse_of(s: Seq<char>) -> Result<Seq<char>, UrlError>;

/// What `url::Url::join` makes of a reference against the `http` or `https`
/// URL serialized as `base`.
pub uninterp spec fn url_join_of(base: Seq<char>, s: Seq<char>) -> Result<Seq<char>, UrlError>;

/// The host of the `http` or `https` URL serialized as `t`, as
/// `url::Url::host_str` gives it.
pub uninterp spec fn host_of(t: Seq<char>) -> Option<Seq<char>>;

/// Whether a scheme is one the crawler follows.
pub open spec fn is_web_scheme(s: Seq<char>) -> bool {
    s == "http"@ || s == "https"@
}

/// Whether `t` is the serialization of an `http` or `https` URL; such a
/// text always carries the host, so it fixes the whole URL.
pub open spec fn is_web_url(t: Seq<char>) -> bool {
    is_web_scheme(scheme_of(t))
}

/// Whether `s` is a bare fragment reference such as `#top`.
pub open spec fn is_fragment_ref(s: Seq<char>) -> bool {
    s.len() > 0 && s[0] == '#'
}

/// The characters of `t` before the first `c` (all of `t` where there is none).
pub open spec fn before_first(t: Seq<char>, c: char) -> Seq<char>
    decreases t.len(),
{
    if t.len() == 0 {
        t
    } else if t[0] == c {
        Seq::empty()
    } else {
        seq![t[0]] + before_first(t.drop_first(), c)
    }
}

/// The characters of an optional string.
pub open spec fn opt_text(o: Option<String>) -> Option<Seq<char>> {
    match o {
        Some(s) => Some(s@),
        None => None,
    }
}

/// The serializations of a list of URLs.
pub open spec fn url_texts(v: Seq<WebUrl>) -> Seq<Seq<char>> {
    v.map_values(|u: WebUrl| u@)
}

/// The serialization of an optional URL.
pub open spec fn opt_url(o: Option<WebUrl>) -> Option<Seq<char>> {
    match o {
        Some(u) => Some(u@),
        None => None,
    }
}

/// Where `c` first occurs at `i`, or not at all and `i` is the length, the
/// text before the first `c` is the text before `i`.
proof fn lemma_before_first_at(t: Seq<char>, c: char, i: int)
    requires
        0 <= i <= t.len(),
        forall|k: int| 0 <= k < i ==> t[k] != c,
        i == t.len() || t[i] == c,
    ensures
        before_first(t, c) == t.subrange(0, i),
    decreases t.len(),
{
    if t.len() == 0 {
        assert(t.subrange(0, i) =~= t);
    } else if i == 0 {
        assert(t.subrange(0, 0) =~= Seq::<char>::empty());
    } else {
        let rest = t.drop_first();
        assert forall|k: int| 0 <= k < i - 1 implies rest[k] != c by {
            assert(rest[k] == t[k + 1]);
        }
        lemma_before_first_at(rest, c, i - 1);
        assert(t.subrange(0, i) =~= seq![t[0]] + rest.subrange(0, i - 1));
    }
}

/// The scheme of a URL serialization: what stands before the first `:`.
pub open spec fn scheme_of(t: Seq<char>) -> Seq<char> {
    before_first(t, ':')
}

/// A serialization with its fragment (from the first `#` on) removed.
pub open spec fn without_fragment(t: Seq<char>) -> Seq<char> {
    before_first(t, '#')
}

/// Relies on `url::Url::parse`; the error kinds are told apart by variant.
/// A string that starts with `#` has no scheme, so without a base it is a
/// relative reference.
#[verifier::external_body]
fn url_parse(s: &str) -> (r: Result<WebUrl, UrlError>)
    ensures
        match url_parse_of(s@) {
            Ok(t) => r is Ok && r->Ok_0.text@ == t,
            Err(e) => r == Err::<WebUrl, UrlError>(e),
        },
        is_fragment_ref(s@) ==> (r is Err && r->Err_0 == UrlError::RelativeWithoutBase),
{
    match url::Url::parse(s) {
        Ok(u) => Ok(WebUrl { text: u.as_str().to_string(), inner: u }),
        Err(url::ParseError::RelativeUrlWithoutBase) => Err(UrlError::RelativeWithoutBase),
        Err(_) => Err(UrlError::Invalid),
    }
}

/// Relies on `url::Url::join`: resolution of a reference against a base URL.
/// A bare fragment reference keeps the base up to its fragment and adds the
/// new one after a `#`.
#[verifier::external_body]
fn url_join(base: &WebUrl, s: &str) -> (r: Result<WebUrl, UrlError>)
    requires
        is_web_url(base.text@),
    ensures
        match url_join_of(base.text@, s@) {
            Ok(t) => r is Ok && r->Ok_0.text@ == t,
            Err(e) => r == Err::<WebUrl, UrlError>(e),
        },
        is_fragment_ref(s@) ==> r is Ok && without_fragment(r->Ok_0.text@) == without_fragment(
            base.text@,
        ),
{
    match base.inner.join(s) {
        Ok(u) => Ok(WebUrl { text: u.as_str().to_string(), inner: u }),
        Err(url::ParseError::RelativeUrlWithoutBase) => Err(UrlError::RelativeWithoutBase),
        Err(_) => Err(UrlError::Invalid),
    }
}

/// Relies on `url::Url::set_fragment` with `None`: it cuts the serialization
/// at the `#` that starts the fragment, the first one.
#[verifier::external_body]
fn url_clear_fragment(u: &mut WebUrl)
    ensures
        final(u).text@ == without_fragment(old(u).text@),
{
    u.inner.set_fragment(None);
    u.text = u.inner.as_str().to_string();
}

/// Relies on `url::Url::scheme`: the serialization up to the first `:`.
#[verifier::external_body]
fn url_scheme(u: &WebUrl) -> (r: String)
    ensures
        r@ == scheme_of(u.text@),
{
    u.inner.scheme().to_string()
}

/// Relies on `url::Url::host_str`.
#[verifier::external_body]
fn url_host(u: &WebUrl) -> (r: Option<String>)
    requires
        is_web_url(u.text@),
    ensures
        opt_text(r) == host_of(u.text@),
{
    u.inner.host_str().map(|h| h.to_string())
}

impl View for WebUrl {
    type V = Seq<char>;

    closed spec fn view(&self) -> Seq<char> {
        self.text@
    }
}

impl WebUrl {
    /// Reads `s` as an absolute URL.
    pub fn parse(s: &str) -> (r: Result<WebUrl, UrlError>)
        ensures
            match url_parse_of(s@) {
                Ok(t) => r is Ok && r->Ok_0@ == t,
                Err(e) => r == Err::<WebUrl, UrlError>(e),
            },
            is_fragment_ref(s@) ==> (r is Err && r->Err_0 == UrlError::RelativeWithoutBase),
    {
        url_parse(s)
    }

    /// Resolves the reference `s` against this URL.
    pub fn join(&self, s: &str) -> (r: Result<WebUrl, UrlError>)
        requires
            is_web_url(self@),
        ensures
            match url_join_of(self@, s@) {
                Ok(t) => r is Ok && r->Ok_0@ == t,
                Err(e) => r == Err::<WebUrl, UrlError>(e),
            },
            is_fragment_ref(s@) ==> r is Ok && without_fragment(r->Ok_0@) == without_fragment(self@),
    {
        url_join(self, s)
    }

    /// Removes the fragment.
    pub fn clear_fragment(&mut self)
        ensures
            final(self)@ == without_fragment(old(self)@),
    {
        url_clear_fragment(self)
    }

    /// The scheme, without its `:`.
    pub fn scheme(&self) -> (r: String)
        ensures
            r@ == scheme_of(self@),
    {
        url_scheme(self)
    }

    /// The host.
    pub fn host(&self) -> (r: Option<String>)
        requires
            is_web_url(self@),
        ensures
            opt_text(r) == host_of(self@),
    {
        url_host(self)
    }

    /// Whether the scheme is `http` or `https`.
    pub fn is_web(&self) -> (r: bool)
        ensures
            r == is_web_url(self@),
    {
        let scheme = self.scheme();
        let http = "http".to_string();
        let https = "https".to_string();
        proof {
            reveal_strlit("http");
            reveal_strlit("https");
        }
        scheme == http || scheme == https
    }

    /// The serialization without the fragment.
    pub fn text_without_fragment(&self) -> (r: String)
        ensures
            r@ == without_fragment(self@),
    {
        let t = self.text.as_str();
        let n = t.unicode_len();
        let mut i: usize = 0;
        while i < n
            invariant
                n == t@.len(),
                t@ == self@,
                i <= n,
                forall|k: int| 0 <= k < i ==> t@[k] != '#',
            decreases n - i,
        {
            let c = t.get_char(i);
            if c == '#' {
                proof {
                    lemma_before_first_at(t@, '#', i as int);
                }
                return t.substring_char(0, i).to_string();
            }
            i = i + 1;
        }
        proof {
            lemma_before_first_at(t@, '#', i as int);
        }
        t.substring_char(0, i).to_string()
    }

    /// The serialization.
    pub fn as_str(&self) -> (r: &str)
        ensures
            r@ == self@,
    {
        self.text.as_str()
    }

    /// A copy of the serialization.
    pub fn to_text(&self) -> (r: String)
        ensures
            r@ == self@,
    {
        self.text.clone()
    }

    /// Whether two URLs have the same serialization, which is how `url` compares them.
    pub fn same_as(&self, other: &WebUrl) -> (r: bool)
        ensures
            r == (self@ == other@),
    {
        self.text == other.text
    }
}

} // verus!
