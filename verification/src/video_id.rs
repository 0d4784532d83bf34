//! Video identifiers and the address shapes they are read from.
//!
//! An address is recognised when it reads `https://`, then an optional
//! `www.` or `m.`, then `youtube.com` or `youtu.be`, then `/`, then an
//! optional `watch?v=`, `v/` or `embed/`, then eleven identifier characters.
//! Whatever follows the identifier is ignored.

use vstd::prelude::*;
use vstd::string::*;

verus! {

/// Why an address was turned down.
#[derive(Clone, Copy, Debug, PartialEq, Eq)]
pub enum ValidationError {
    /// The text has none of the recognised address shapes.
    NotRecognized,
}

/// Letters, digits, `_` and `-`: the alphabet of identifiers.
pub open spec fn is_id_char(c: char) -> bool {
    ('a' <= c && c <= 'z') || ('A' <= c && c <= 'Z') || ('0' <= c && c <= '9') || c == '_' || c
        == '-'
}

/// An identifier is exactly eleven characters of the identifier alphabet.
pub open spec fn is_video_id(s: Seq<char>) -> bool {
    s.len() == 11 && forall|i: int| 0 <= i < 11 ==> is_id_char(#[trigger] s[i])
}

/// What is left of `s` once the leading `p` is taken away, if `s` starts with `p`.
pub open spec fn strip(s: Seq<char>, p: Seq<char>) -> Option<Seq<char>> {
    if p.is_prefix_of(s) {
        Some(s.skip(p.len() as int))
    } else {
        None
    }
}

/// `s` without a leading `www.` or `m.`; `s` itself when it has neither.
pub open spec fn after_subdomain(s: Seq<char>) -> Seq<char> {
    match strip(s, "www."@) {
        Some(t) => t,
        None => match strip(s, "m."@) {
            Some(t) => t,
            None => s,
        },
    }
}

/// What follows a leading `youtube.com` or `youtu.be`.
pub open spec fn after_domain(s: Seq<char>) -> Option<Seq<char>> {
    match strip(s, "youtube.com"@) {
        Some(t) => Some(t),
        None => strip(s, "youtu.be"@),
    }
}

/// The first eleven characters of `s`, if they form an identifier.
pub open spec fn leading_id(s: Seq<char>) -> Option<Seq<char>> {
    if s.len() >= 11 && is_video_id(s.take(11)) {
        Some(s.take(11))
    } else {
        None
    }
}

/// The identifier that directly follows `marker` at the start of `path`.
pub open spec fn id_after(path: Seq<char>, marker: Seq<char>) -> Option<Seq<char>> {
    match strip(path, marker) {
        Some(rest) => leading_id(rest),
        None => None,
    }
}

/// The identifier a path starts with, behind one of the markers or bare.
pub open spec fn id_in_path(path: Seq<char>) -> Option<Seq<char>> {
    if id_after(path, "watch?v="@) is Some {
        id_after(path, "watch?v="@)
    } else if id_after(path, "v/"@) is Some {
        id_after(path, "v/"@)
    } else if id_after(path, "embed/"@) is Some {
        id_after(path, "embed/"@)
    } else {
        leading_id(path)
    }
}

/// The identifier that an address names, or `None` when the address has
/// none of the recognised shapes.
pub open spec fn video_id_of(url: Seq<char>) -> Option<Seq<char>> {
    match strip(url, "https://"@) {
        None => None,
        Some(host) => match after_domain(after_subdomain(host)) {
            None => None,
            Some(tail) => match strip(tail, "/"@) {
                None => None,
                Some(path) => id_in_path(path),
            },
        },
    }
}

/// The identifier of one video: eleven characters of the identifier alphabet.
#[derive(Debug, PartialEq, Eq, PartialOrd, Ord)]
pub struct YoutubeVideoId(String);

impl Clone for YoutubeVideoId {
    fn clone(&self) -> (r: Self)
        ensures
            r@ == self@,
    {
        proof {
            use_type_invariant(self);
        }
        YoutubeVideoId(self.0.clone())
    }
}

impl View for YoutubeVideoId {
    type V = Seq<char>;

    closed spec fn view(&self) -> Seq<char> {
        self.0@
    }
}

fn is_id_char_exec(c: char) -> (r: bool)
    ensures
        r == is_id_char(c),
{
    (c >= 'a' && c <= 'z') || (c >= 'A' && c <= 'Z') || (c >= '0' && c <= '9') || c == '_' || c
        == '-'
}

/// Steps over `literal` where it stands at position `at` of `text`.
fn skip_literal(text: &str, len: usize, at: usize, literal: &str) -> (r: Option<usize>)
    requires
        len == text@.len(),
        at <= len,
    ensures
        r is Some <==> strip(text@.skip(at as int), literal@) is Some,
        r matches Some(next) ==> next == at + literal@.len() && next <= len,
{
    let m = literal.unicode_len();
    if m > len - at {
        return None;
    }
    let mut i: usize = 0;
    while i < m
        invariant
            len == text@.len(),
            m == literal@.len(),
            at + m <= len,
            i <= m,
            forall|j: int| 0 <= j < i ==> text@[at + j] == literal@[j],
        decreases m - i,
    {
        if text.get_char(at + i) != literal.get_char(i) {
            assert(text@.skip(at as int).subrange(0, m as int)[i as int] != literal@[i as int]);
            return None;
        }
        i += 1;
    }
    assert(literal@ =~= text@.skip(at as int).subrange(0, m as int));
    Some(at + m)
}

/// Whether eleven identifier characters stand at position `at` of `text`.
fn id_at(text: &str, len: usize, at: usize) -> (r: bool)
    requires
        len == text@.len(),
        at <= len,
    ensures
        r == (leading_id(text@.skip(at as int)) is Some),
        r ==> at + 11 <= len && leading_id(text@.skip(at as int)) == Some(
            text@.subrange(at as int, at + 11),
        ),
{
    if len - at < 11 {
        return false;
    }
    let ghost rest = text@.skip(at as int);
    let mut i: usize = 0;
    while i < 11
        invariant
            len == text@.len(),
            at + 11 <= len,
            i <= 11,
            rest == text@.skip(at as int),
            forall|j: int| 0 <= j < i ==> is_id_char(#[trigger] rest.take(11)[j]),
        decreases 11 - i,
    {
        if !is_id_char_exec(text.get_char(at + i)) {
            assert(!is_id_char(rest.take(11)[i as int]));
            return false;
        }
        i += 1;
    }
    assert(rest.take(11) =~= text@.subrange(at as int, at + 11));
    true
}

impl YoutubeVideoId {
    #[verifier::type_invariant]
    spec fn well_formed(self) -> bool {
        is_video_id(self.0@)
    }

    /// Reads the identifier out of an address.
    ///
    /// Succeeds exactly on the recognised shapes, and then yields the eleven
    /// characters that follow the host and the optional marker.
    pub fn parse(url: &str) -> (r: Result<Self, ValidationError>)
        ensures
            match r {
                Ok(id) => video_id_of(url@) == Some(id@),
                Err(e) => video_id_of(url@) is None && e == ValidationError::NotRecognized,
            },
    {
        let len = url.unicode_len();
        assert(url@.skip(0) =~= url@);
        let host = match skip_literal(url, len, 0, "https://") {
            Some(next) => next,
            None => {
                return Err(ValidationError::NotRecognized);
            },
        };
        let domain = match skip_literal(url, len, host, "www.") {
            Some(next) => next,
            None => match skip_literal(url, len, host, "m.") {
                Some(next) => next,
                None => host,
            },
        };
        assert(url@.skip(domain as int) =~= after_subdomain(url@.skip(host as int)));
        let tail = match skip_literal(url, len, domain, "youtube.com") {
            Some(next) => next,
            None => match skip_literal(url, len, domain, "youtu.be") {
                Some(next) => next,
                None => {
                    return Err(ValidationError::NotRecognized);
                },
            },
        };
        assert(Some(url@.skip(tail as int)) =~= after_domain(url@.skip(domain as int)));
        let path = match skip_literal(url, len, tail, "/") {
            Some(next) => next,
            None => {
                return Err(ValidationError::NotRecognized);
            },
        };
        assert(Some(url@.skip(path as int)) =~= strip(url@.skip(tail as int), "/"@));
        let ghost p = url@.skip(path as int);
        assert(video_id_of(url@) == id_in_path(p));
        let start = match Self::marked_id(url, len, path, "watch?v=") {
            Some(at) => at,
            None => match Self::marked_id(url, len, path, "v/") {
                Some(at) => at,
                None => match Self::marked_id(url, len, path, "embed/") {
                    Some(at) => at,
                    None => {
                        if id_at(url, len, path) {
                            path
                        } else {
                            return Err(ValidationError::NotRecognized);
                        }
                    },
                },
            },
        };
        let token = url.substring_char(start, start + 11);
        Ok(YoutubeVideoId(token.to_owned()))
    }

    /// Where the identifier starts, if `marker` and then an identifier stand
    /// at position `at`.
    fn marked_id(url: &str, len: usize, at: usize, marker: &str) -> (r: Option<usize>)
        requires
            len == url@.len(),
            at <= len,
        ensures
            r is Some <==> id_after(url@.skip(at as int), marker@) is Some,
            r matches Some(start) ==> start + 11 <= len && id_after(
                url@.skip(at as int),
                marker@,
            ) == Some(url@.subrange(start as int, start + 11)),
    {
        match skip_literal(url, len, at, marker) {
            None => None,
            Some(next) => {
                assert(url@.skip(next as int) =~= url@.skip(at as int).skip(marker@.len() as int));
                if id_at(url, len, next) {
                    Some(next)
                } else {
                    None
                }
            },
        }
    }

    /// The address of the page that shows the video. Read back, it gives
    /// this identifier again.
    pub fn watch_url(&self) -> (r: String)
        ensures
            r@ == watch_address(self@),
            video_id_of(r@) == Some(self@),
    {
        proof {
            use_type_invariant(self);
            lemma_watch_address_round_trip(self@);
        }
        let mut url = String::from_str("https://www.youtube.com/watch?v=");
        url.append(self.0.as_str());
        url
    }

    /// The identifier as text: always eleven characters of the identifier
    /// alphabet.
    pub fn as_str(&self) -> (r: &str)
        ensures
            r@ == self@,
            is_video_id(r@),
    {
        proof {
            use_type_invariant(self);
        }
        self.0.as_str()
    }
}

/// The optional part of a host name in front of the domain.
pub open spec fn is_subdomain(s: Seq<char>) -> bool {
    s == Seq::<char>::empty() || s == "www."@ || s == "m."@
}

/// The two domains under which videos are addressed.
pub open spec fn is_domain(s: Seq<char>) -> bool {
    s == "youtube.com"@ || s == "youtu.be"@
}

/// What may stand between the host and the identifier.
pub open spec fn is_marker(s: Seq<char>) -> bool {
    s == Seq::<char>::empty() || s == "watch?v="@ || s == "v/"@ || s == "embed/"@
}

/// The address made of the given parts, with `rest` trailing the identifier.
pub open spec fn address(
    subdomain: Seq<char>,
    domain: Seq<char>,
    marker: Seq<char>,
    id: Seq<char>,
    rest: Seq<char>,
) -> Seq<char> {
    "https://"@ + subdomain + domain + "/"@ + marker + id + rest
}

/// `url` is an address of the video `id` in one of the recognised shapes.
pub open spec fn names_video(url: Seq<char>, id: Seq<char>) -> bool {
    exists|subdomain: Seq<char>, domain: Seq<char>, marker: Seq<char>, rest: Seq<char>|
        is_subdomain(subdomain) && is_domain(domain) && is_marker(marker) && is_video_id(id)
            && url == #[trigger] address(subdomain, domain, marker, id, rest)
}

proof fn lemma_strip_concat(a: Seq<char>, b: Seq<char>)
    ensures
        strip(a + b, a) == Some(b),
{
    assert((a + b).subrange(0, a.len() as int) =~= a);
    assert((a + b).skip(a.len() as int) =~= b);
}

proof fn lemma_strip_mismatch(s: Seq<char>, p: Seq<char>, i: int)
    requires
        0 <= i < p.len(),
        i < s.len() ==> s[i] != p[i],
    ensures
        strip(s, p) is None,
{
    if p.len() <= s.len() {
        assert(s.subrange(0, p.len() as int)[i] == s[i]);
    }
}

proof fn lemma_strip_join(s: Seq<char>, p: Seq<char>)
    requires
        strip(s, p) is Some,
    ensures
        s == p + strip(s, p)->0,
{
    assert(s =~= s.subrange(0, p.len() as int) + s.skip(p.len() as int));
}

/// Taking an optional subdomain away from in front of a domain.
proof fn lemma_subdomain_step(subdomain: Seq<char>, named: Seq<char>)
    requires
        is_subdomain(subdomain),
        named.len() > 0,
        named[0] == 'y',
    ensures
        after_subdomain(subdomain + named) == named,
{
    reveal_strlit("www.");
    reveal_strlit("m.");
    let host = subdomain + named;
    if subdomain == "www."@ {
        lemma_strip_concat("www."@, named);
    } else if subdomain == "m."@ {
        lemma_strip_mismatch(host, "www."@, 0);
        lemma_strip_concat("m."@, named);
    } else {
        assert(host =~= named);
        lemma_strip_mismatch(host, "www."@, 0);
        lemma_strip_mismatch(host, "m."@, 0);
    }
}

/// Taking a domain away from in front of what follows it.
proof fn lemma_domain_step(domain: Seq<char>, tail: Seq<char>)
    requires
        is_domain(domain),
    ensures
        after_domain(domain + tail) == Some(tail),
        (domain + tail).len() > 0,
        (domain + tail)[0] == 'y',
{
    reveal_strlit("youtube.com");
    reveal_strlit("youtu.be");
    if domain == "youtube.com"@ {
        lemma_strip_concat("youtube.com"@, tail);
    } else {
        lemma_strip_mismatch(domain + tail, "youtube.com"@, 5);
        lemma_strip_concat("youtu.be"@, tail);
    }
}

/// Finding the identifier behind any marker.
proof fn lemma_marker_step(marker: Seq<char>, id: Seq<char>, rest: Seq<char>)
    requires
        is_marker(marker),
        is_video_id(id),
    ensures
        id_in_path(marker + (id + rest)) == Some(id),
{
    reveal_strlit("watch?v=");
    reveal_strlit("v/");
    reveal_strlit("embed/");
    let tail_id = id + rest;
    let path = marker + tail_id;
    assert(tail_id.take(11) =~= id);
    assert(leading_id(tail_id) == Some(id));
    if marker == "watch?v="@ {
        lemma_strip_concat("watch?v="@, tail_id);
    } else if marker == "v/"@ {
        lemma_strip_mismatch(path, "watch?v="@, 0);
        lemma_strip_concat("v/"@, tail_id);
    } else if marker == "embed/"@ {
        lemma_strip_mismatch(path, "watch?v="@, 0);
        lemma_strip_mismatch(path, "v/"@, 0);
        lemma_strip_concat("embed/"@, tail_id);
    } else {
        assert(path =~= tail_id);
        assert(is_id_char(id[5]) && is_id_char(id[1]));
        assert(path[5] == id[5] && path[1] == id[1]);
        lemma_strip_mismatch(path, "watch?v="@, 5);
        lemma_strip_mismatch(path, "v/"@, 1);
        lemma_strip_mismatch(path, "embed/"@, 5);
    }
}

/// The address read as scheme, then host, then slash, then path.
proof fn lemma_address_parts(
    subdomain: Seq<char>,
    domain: Seq<char>,
    marker: Seq<char>,
    id: Seq<char>,
    rest: Seq<char>,
)
    ensures
        address(subdomain, domain, marker, id, rest) == "https://"@ + (subdomain + (domain + ("/"@
            + (marker + (id + rest))))),
{
    assert(address(subdomain, domain, marker, id, rest) =~= "https://"@ + (subdomain + (domain + (
        "/"@ + (marker + (id + rest))))));
}

/// Every address in a recognised shape names its video: bare or behind a
/// marker, on either domain, with or without `www.` or `m.`, and whatever
/// trails the identifier. Two addresses of one video therefore give the
/// same identifier.
pub proof fn lemma_shapes_are_recognised(
    subdomain: Seq<char>,
    domain: Seq<char>,
    marker: Seq<char>,
    id: Seq<char>,
    rest: Seq<char>,
)
    requires
        is_subdomain(subdomain),
        is_domain(domain),
        is_marker(marker),
        is_video_id(id),
    ensures
        video_id_of(address(subdomain, domain, marker, id, rest)) == Some(id),
{
    let path = marker + (id + rest);
    let tail = "/"@ + path;
    let named = domain + tail;
    let host = subdomain + named;
    lemma_address_parts(subdomain, domain, marker, id, rest);
    lemma_strip_concat("https://"@, host);
    lemma_domain_step(domain, tail);
    lemma_subdomain_step(subdomain, named);
    lemma_strip_concat("/"@, path);
    lemma_marker_step(marker, id, rest);
}

/// The subdomain that `after_subdomain` took away.
proof fn lemma_subdomain_split(host: Seq<char>) -> (subdomain: Seq<char>)
    ensures
        is_subdomain(subdomain),
        host == subdomain + after_subdomain(host),
{
    if strip(host, "www."@) is Some {
        lemma_strip_join(host, "www."@);
        "www."@
    } else if strip(host, "m."@) is Some {
        lemma_strip_join(host, "m."@);
        "m."@
    } else {
        assert(host =~= Seq::<char>::empty() + host);
        Seq::<char>::empty()
    }
}

/// The domain that `after_domain` took away.
proof fn lemma_domain_split(named: Seq<char>) -> (domain: Seq<char>)
    requires
        after_domain(named) is Some,
    ensures
        is_domain(domain),
        named == domain + after_domain(named)->0,
{
    if strip(named, "youtube.com"@) is Some {
        lemma_strip_join(named, "youtube.com"@);
        "youtube.com"@
    } else {
        lemma_strip_join(named, "youtu.be"@);
        "youtu.be"@
    }
}

/// The marker and the trailing text around the identifier found in a path.
proof fn lemma_marker_split(path: Seq<char>) -> (parts: (Seq<char>, Seq<char>))
    requires
        id_in_path(path) is Some,
    ensures
        is_marker(parts.0),
        is_video_id(id_in_path(path)->0),
        path == parts.0 + (id_in_path(path)->0 + parts.1),
{
    let id = id_in_path(path)->0;
    let marker = if id_after(path, "watch?v="@) is Some {
        "watch?v="@
    } else if id_after(path, "v/"@) is Some {
        "v/"@
    } else if id_after(path, "embed/"@) is Some {
        "embed/"@
    } else {
        Seq::<char>::empty()
    };
    let tail_id = if id_after(path, marker) is Some && marker.len() > 0 {
        strip(path, marker)->0
    } else {
        path
    };
    if id_after(path, "watch?v="@) is Some {
        lemma_strip_join(path, "watch?v="@);
    } else if id_after(path, "v/"@) is Some {
        lemma_strip_join(path, "v/"@);
    } else if id_after(path, "embed/"@) is Some {
        lemma_strip_join(path, "embed/"@);
    } else {
        assert(path =~= Seq::<char>::empty() + path);
    }
    reveal_strlit("watch?v=");
    reveal_strlit("v/");
    reveal_strlit("embed/");
    assert(path == marker + tail_id);
    assert(leading_id(tail_id) == Some(id));
    let rest = tail_id.skip(11);
    assert(tail_id =~= id + rest);
    (marker, rest)
}

/// Only addresses in a recognised shape are recognised: an identifier is
/// found exactly where the text is such an address of it, so a wrong host
/// or a malformed path is turned down.
pub proof fn lemma_recognised_only_shapes(url: Seq<char>)
    ensures
        video_id_of(url) matches Some(id) ==> names_video(url, id),
        (forall|id: Seq<char>| !names_video(url, id)) ==> video_id_of(url) is None,
{
    if let Some(id) = video_id_of(url) {
        let host = strip(url, "https://"@)->0;
        lemma_strip_join(url, "https://"@);
        let named = after_subdomain(host);
        let subdomain = lemma_subdomain_split(host);
        let tail = after_domain(named)->0;
        let domain = lemma_domain_split(named);
        let path = strip(tail, "/"@)->0;
        lemma_strip_join(tail, "/"@);
        let (marker, rest) = lemma_marker_split(path);
        lemma_address_parts(subdomain, domain, marker, id, rest);
        assert(url == address(subdomain, domain, marker, id, rest));
        assert(names_video(url, id));
    }
}

/// The address of the page that shows the video `id`.
pub open spec fn watch_address(id: Seq<char>) -> Seq<char> {
    "https://www.youtube.com/watch?v="@ + id
}

/// The address made for an identifier names that identifier.
pub proof fn lemma_watch_address_round_trip(id: Seq<char>)
    requires
        is_video_id(id),
    ensures
        video_id_of(watch_address(id)) == Some(id),
{
    reveal_strlit("https://www.youtube.com/watch?v=");
    reveal_strlit("https://");
    reveal_strlit("www.");
    reveal_strlit("youtube.com");
    reveal_strlit("/");
    reveal_strlit("watch?v=");
    let rest = Seq::<char>::empty();
    assert("https://www.youtube.com/watch?v="@ =~= "https://"@ + "www."@ + "youtube.com"@ + "/"@
        + "watch?v="@);
    assert(watch_address(id) =~= address("www."@, "youtube.com"@, "watch?v="@, id, rest));
    lemma_shapes_are_recognised("www."@, "youtube.com"@, "watch?v="@, id, rest);
}

/// An address names at most one video.
pub proof fn lemma_one_video_per_address(url: Seq<char>, id1: Seq<char>, id2: Seq<char>)
    requires
        names_video(url, id1),
        names_video(url, id2),
    ensures
        id1 == id2,
{
    let (s1, d1, m1, r1) = choose|s: Seq<char>, d: Seq<char>, m: Seq<char>, r: Seq<char>|
        is_subdomain(s) && is_domain(d) && is_marker(m) && is_video_id(id1) && url
            == #[trigger] address(s, d, m, id1, r);
    let (s2, d2, m2, r2) = choose|s: Seq<char>, d: Seq<char>, m: Seq<char>, r: Seq<char>|
        is_subdomain(s) && is_domain(d) && is_marker(m) && is_video_id(id2) && url
            == #[trigger] address(s, d, m, id2, r);
    lemma_shapes_are_recognised(s1, d1, m1, id1, r1);
    lemma_shapes_are_recognised(s2, d2, m2, id2, r2);
}

} // verus!
