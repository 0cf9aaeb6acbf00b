//! Media types, read by the `mime` crate, and the content-type allow-list.

use vstd::prelude::*;
use crate::address::before_first;

verus! {

#[verifier::external_type_specification]
#[verifier::external_body]
pub struct ExMime(mime::Mime);

/// A media type such as `text/html`, together with the text that `mime`
/// keeps of it (type and subtype in lower case).
///
/// Values are made only by `MediaType::parse`, which keeps `text` equal to
/// the text of `inner`.
pub struct MediaType {
    inner: mime::Mime,
    text: String,
}

/// The text that `mime` keeps of the media type that `s` parses to, if it parses.
pub uninterp spec fn media_type_of(s: Seq<char>) -> Option<Seq<char>>;

/// The subtype of the media type kept as `t`, as `mime::Mime::subtype` gives
/// it (without a `+suffix` or parameters).
pub uninterp spec fn subtype_of(t: Seq<char>) -> Seq<char>;

/// Relies on `mime::Mime`'s `FromStr`; the result is the parsed type's text.
/// A string without `;` has no parameters, and its text is the string in
/// lower case, so it holds no `;` either.
#[verifier::external_body]
fn mime_parse(s: &str) -> (r: Option<MediaType>)
    ensures
        match media_type_of(s@) {
            Some(t) => r is Some && r->Some_0.text@ == t,
            None => r is None,
        },
        !s@.contains(';') && r is Some ==> !r->Some_0.text@.contains(';'),
{
    match s.parse::<mime::Mime>() {
        Ok(m) => Some(MediaType { text: m.as_ref().to_string(), inner: m }),
        Err(_) => None,
    }
}

/// Relies on `mime::Mime::type_`: the text before the `/`, made of token
/// characters, which exclude `;`.
#[verifier::external_body]
fn mime_type(m: &MediaType) -> (r: String)
    ensures
        r@ == before_first(m.text@, '/'),
        !r@.contains(';'),
{
    m.inner.type_().to_string()
}

/// Relies on `mime::Mime::subtype`: it ends before any `+suffix` or `;`.
#[verifier::external_body]
fn mime_subtype(m: &MediaType) -> (r: String)
    ensures
        r@ == subtype_of(m.text@),
        !r@.contains(';'),
{
    m.inner.subtype().to_string()
}

/// Relies on `mime::Mime`'s `PartialEq`. Against a type without parameters
/// it compares the lower-case texts, ignoring ASCII case: equal exactly
/// when the texts are, as a type with parameters has a `;` the other lacks.
#[verifier::external_body]
fn mime_eq(a: &MediaType, b: &MediaType) -> (r: bool)
    requires
        !b.text@.contains(';'),
    ensures
        r == (a.text@ == b.text@),
{
    a.inner == b.inner
}

impl View for MediaType {
    type V = Seq<char>;

    closed spec fn view(&self) -> Seq<char> {
        self.text@
    }
}

/// The text of a media type reduced to `type/subtype`.
pub open spec fn essence_of(t: Seq<char>) -> Seq<char> {
    before_first(t, '/') + seq!['/'] + subtype_of(t)
}

/// The texts of a list of media types.
pub open spec fn texts(v: Seq<MediaType>) -> Seq<Seq<char>> {
    v.map_values(|m: MediaType| m@)
}

/// Whether one of `allow` is the media type kept as `t`.
pub open spec fn listed(allow: Seq<Seq<char>>, t: Seq<char>) -> bool {
    allow.contains(t)
}

/// Whether a response whose `Content-Type` header is `header` passes the
/// allow-list `allow`: an empty list lets everything through; otherwise the
/// header's type and subtype, without parameters, must be on the list.
pub open spec fn content_type_allowed(header: Option<Seq<char>>, allow: Seq<Seq<char>>) -> bool {
    if allow.len() == 0 {
        true
    } else {
        match header {
            None => false,
            Some(h) => match media_type_of(h) {
                None => false,
                Some(t) => match media_type_of(essence_of(t)) {
                    None => false,
                    Some(e) => listed(allow, e),
                },
            },
        }
    }
}

impl MediaType {
    /// Reads a media type.
    pub fn parse(s: &str) -> (r: Option<MediaType>)
        ensures
            match media_type_of(s@) {
                Some(t) => r is Some && r->Some_0@ == t,
                None => r is None,
            },
    {
        mime_parse(s)
    }

    /// The text of the media type.
    pub fn as_str(&self) -> (r: &str)
        ensures
            r@ == self@,
    {
        self.text.as_str()
    }

    /// The same media type reduced to `type/subtype`, as a media type of its own.
    pub fn essence(&self) -> (r: Option<MediaType>)
        ensures
            match media_type_of(essence_of(self@)) {
                Some(t) => r is Some && r->Some_0@ == t,
                None => r is None,
            },
            r is Some ==> !r->Some_0@.contains(';'),
    {
        let mut text = mime_type(self);
        let ghost ty = text@;
        text.append("/");
        let sub = mime_subtype(self);
        text.append(sub.as_str());
        proof {
            reveal_strlit("/");
            assert(text@ =~= essence_of(self@));
            assert(text@ =~= ty + seq!['/'] + sub@);
            if text@.contains(';') {
                let k = choose|k: int| 0 <= k < text@.len() && text@[k] == ';';
                if k < ty.len() {
                    assert(ty[k] == ';');
                } else if k > ty.len() {
                    assert(sub@[k - ty.len() - 1] == ';');
                }
            }
        }
        mime_parse(text.as_str())
    }
}

/// Whether one of `allow` is `t`, a type without parameters.
fn is_listed(allow: &Vec<MediaType>, t: &MediaType) -> (r: bool)
    requires
        !t@.contains(';'),
    ensures
        r == listed(texts(allow@), t@),
{
    let mut i: usize = 0;
    while i < allow.len()
        invariant
            i <= allow.len(),
            !t@.contains(';'),
            forall|j: int| 0 <= j < i ==> #[trigger] allow@[j]@ != t@,
        decreases allow.len() - i,
    {
        if mime_eq(&allow[i], t) {
            assert(texts(allow@)[i as int] == allow@[i as int]@);
            return true;
        }
        i = i + 1;
    }
    proof {
        assert forall|j: int| 0 <= j < texts(allow@).len() implies texts(allow@)[j] != t@ by {
            assert(texts(allow@)[j] == allow@[j]@);
        }
    }
    false
}

/// Whether a response whose `Content-Type` header is `header` passes the
/// allow-list `allow`.
pub fn content_type_passes(header: Option<&str>, allow: &Vec<MediaType>) -> (r: bool)
    ensures
        r == content_type_allowed(
            match header {
                Some(h) => Some(h@),
                None => None,
            },
            texts(allow@),
        ),
{
    if allow.len() == 0 {
        return true;
    }
    match header {
        None => false,
        Some(h) => match MediaType::parse(h) {
            None => false,
            Some(m) => match m.essence() {
                None => false,
                Some(e) => is_listed(allow, &e),
            },
        },
    }
}

} // verus!
