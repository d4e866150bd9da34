//! URLs, held as values of the `url` crate.

use vstd::prelude::*;
use vstd::slice::slice_subrange;
use vstd::string::{StrSliceExecFns, StringExecFns};

use crate::form::{
    clean_pairs, first, form_pairs, is_clean, is_form_text, lemma_first, pair_chars, pairs_in,
};
use crate::text::{chars_of, decimal, string_of};
use url::ParseError as OutsideError;
use url::Url as OutsideUrl;

pub mod laws;

verus! {

/// Why a text is not a URL.
#[derive(Clone, Copy, Debug, PartialEq, Eq, Structural)]
pub enum ParseError {
    EmptyHost,
    IdnaError,
    InvalidPort,
    InvalidIpv4Address,
    InvalidIpv6Address,
    InvalidDomainCharacter,
    RelativeUrlWithoutBase,
    RelativeUrlWithCannotBeABaseBase,
    SetHostOnCannotBeABaseUrl,
    Overflow,
    Other,
}

/// The URL of the `url` crate.
#[verifier::external_type_specification]
#[verifier::external_body]
pub struct DeclaredUrl(OutsideUrl);

/// What a URL holds: the text in which it is written, and the parts of it.
pub struct UrlView {
    pub text: Seq<char>,
    pub scheme: Seq<char>,
    pub username: Seq<char>,
    pub password: Option<Seq<char>>,
    pub host: Option<Seq<char>>,
    pub port: Option<u16>,
    pub path: Seq<char>,
    pub query: Option<Seq<char>>,
    pub fragment: Option<Seq<char>>,
}

/// What a URL of the `url` crate holds.
pub uninterp spec fn url_contents(url: OutsideUrl) -> UrlView;

/// What `url::Url::parse` makes of a text.
pub uninterp spec fn url_parsed(input: Seq<char>) -> Result<UrlView, ParseError>;

/// What `url::Host::parse` makes of a host, as it is written; `None` where it is refused.
pub uninterp spec fn host_parsed(host: Seq<char>) -> Option<Seq<char>>;

/// What `url::Host::parse_opaque` makes of a host, as it is written; `None` where it is refused.
pub uninterp spec fn opaque_host_parsed(host: Seq<char>) -> Option<Seq<char>>;

/// Whether a host is a domain of small letters, digits, hyphens and dots in which every label
/// starts with a letter, and a letter or a digit stands after each hyphen and at the end.
pub open spec fn is_plain_domain(host: Seq<char>) -> bool {
    &&& host.len() > 0
    &&& is_small_letter(host[0])
    &&& is_small_letter(host.last()) || is_digit(host.last())
    &&& forall|i: int|
        0 <= i < host.len() ==> is_small_letter(#[trigger] host[i]) || is_digit(host[i]) || host[i]
            == '.' || host[i] == '-'
    &&& forall|i: int|
        0 <= i < host.len() - 1 && #[trigger] host[i] == '.' ==> is_small_letter(host[i + 1])
    &&& forall|i: int|
        0 <= i < host.len() - 1 && #[trigger] host[i] == '-' ==> is_small_letter(host[i + 1])
            || is_digit(host[i + 1])
}

/// The part of a text that is taken for a host: what is before a colon, unless the text is in
/// brackets. `None` where nothing is before it.
pub open spec fn host_part(host: Seq<char>) -> Option<Seq<char>> {
    if host.len() > 0 && host[0] == '[' && host.last() == ']' {
        Some(host)
    } else if host.len() > 0 && host[0] == ':' {
        None
    } else {
        Some(host.take(first(host, ':') as int))
    }
}

/// A host as it is written in a URL with a special scheme or another one; `None` where it is
/// refused. A plain domain is written as it is.
pub open spec fn host_written(special: bool, host: Seq<char>) -> Option<Seq<char>> {
    match host_part(host) {
        Some(part) => if is_plain_domain(part) {
            Some(part)
        } else if special {
            host_parsed(part)
        } else {
            opaque_host_parsed(part)
        },
        None => None,
    }
}

/// The schemes for which hosts are domains or addresses.
pub open spec fn is_special(scheme: Seq<char>) -> bool {
    ||| scheme == "http"@
    ||| scheme == "https"@
    ||| scheme == "ws"@
    ||| scheme == "wss"@
    ||| scheme == "ftp"@
    ||| scheme == "file"@
}

/// Whether a URL has a host and does not name a file. The text of such a URL is read as that URL,
/// where it is read at all.
pub open spec fn can_be_reread(url: UrlView) -> bool {
    url.scheme != "file"@ && url.host is Some
}

/// A port as it is written.
pub open spec fn port_part(port: Option<u16>) -> Seq<char> {
    match port {
        Some(port) => seq![':'] + decimal(port as nat),
        None => Seq::empty(),
    }
}

/// A query as it is written.
pub open spec fn query_part(query: Option<Seq<char>>) -> Seq<char> {
    match query {
        Some(query) => seq!['?'] + query,
        None => Seq::empty(),
    }
}

/// A fragment as it is written.
pub open spec fn fragment_part(fragment: Option<Seq<char>>) -> Seq<char> {
    match fragment {
        Some(fragment) => seq!['#'] + fragment,
        None => Seq::empty(),
    }
}

/// Where the host ends in the text of a URL: before the port, the path, the query and the
/// fragment.
pub open spec fn host_end(url: UrlView) -> int {
    url.text.len() - port_part(url.port).len() - url.path.len() - query_part(url.query).len()
        - fragment_part(url.fragment).len()
}

/// A URL that has a host, with another one in its place.
pub open spec fn with_host_in(url: UrlView, host: Seq<char>) -> UrlView {
    let end = host_end(url);
    UrlView {
        text: url.text.take(end - url.host->0.len()) + host + url.text.skip(end),
        host: if host.len() == 0 {
            None
        } else {
            Some(host)
        },
        ..url
    }
}

/// Where the query begins in the text of a URL: before the fragment.
pub open spec fn query_start(url: UrlView) -> int {
    url.text.len() - query_part(url.query).len() - fragment_part(url.fragment).len()
}

/// A URL with another query, or without one.
pub open spec fn with_query_in(url: UrlView, query: Option<Seq<char>>) -> UrlView {
    UrlView {
        text: url.text.take(query_start(url)) + query_part(query) + fragment_part(url.fragment),
        query,
        ..url
    }
}

/// The names and values in the query of a URL.
pub open spec fn pairs_of(url: UrlView) -> Seq<(Seq<char>, Seq<char>)> {
    match url.query {
        Some(query) => pairs_in(query),
        None => Seq::empty(),
    }
}

/// The largest position in a URL that the `url` crate can count, in 32 bits. It panics beyond.
pub const MAX_URL_POSITION: u64 = 0xFFFF_FFFF;

/// Where the last part of a URL begins in its text: the fragment, the query or the path.
pub open spec fn last_start(url: UrlView) -> int {
    match (url.fragment, url.query) {
        (Some(_), _) => url.text.len() - fragment_part(url.fragment).len(),
        (None, Some(_)) => url.text.len() - query_part(url.query).len(),
        (None, None) => url.text.len() - url.path.len(),
    }
}

/// Whether the positions in a URL can be counted once a host as it is written takes the place of
/// its host.
pub open spec fn host_fits(url: UrlView, host: Seq<char>) -> bool {
    last_start(url) - url.host->0.len() + host.len() <= MAX_URL_POSITION
}

/// Whether the positions in a URL can be counted once a query takes the place of its query.
pub open spec fn query_fits(url: UrlView, query: Option<Seq<char>>) -> bool {
    match (url.fragment, query) {
        (Some(_), _) => query_start(url) + query_part(query).len() <= MAX_URL_POSITION,
        (None, Some(_)) => query_start(url) <= MAX_URL_POSITION,
        (None, None) => true,
    }
}

/// The small letters.
pub open spec fn is_small_letter(c: char) -> bool {
    'a' <= c <= 'z'
}

/// The digits.
pub open spec fn is_digit(c: char) -> bool {
    '0' <= c <= '9'
}

/// The letters.
pub open spec fn is_letter(c: char) -> bool {
    'a' <= c <= 'z' || 'A' <= c <= 'Z'
}

/// The characters that a scheme may have after its first letter.
pub open spec fn is_scheme_char(c: char) -> bool {
    is_letter(c) || '0' <= c <= '9' || c == '+' || c == '-' || c == '.'
}

/// Whether a scheme of some length followed by `://` stands at a position of a text.
pub open spec fn has_scheme_at(s: Seq<char>, start: int, length: int) -> bool {
    &&& 0 <= start
    &&& 0 < length
    &&& start + length + 3 <= s.len()
    &&& is_letter(s[start])
    &&& forall|i: int| start <= i < start + length ==> is_scheme_char(#[trigger] s[i])
    &&& s[start + length] == ':'
    &&& s[start + length + 1] == '/'
    &&& s[start + length + 2] == '/'
}

/// The characters that are left out wherever they stand in a URL: tabs and the ends of lines.
pub open spec fn is_left_out(c: char) -> bool {
    c == '\t' || c == '\n' || c == '\r'
}

/// A text without the characters that are left out.
pub open spec fn without_left_out(s: Seq<char>) -> Seq<char> {
    s.filter(|c: char| !is_left_out(c))
}

/// Whether a text starts with a scheme followed by `://`. Control characters and spaces in front
/// do not count.
pub open spec fn starts_with_scheme_in(s: Seq<char>) -> bool {
    exists|start: int, length: int|
        (forall|i: int| 0 <= i < start ==> #[trigger] s[i] <= ' ') && #[trigger] has_scheme_at(
            s,
            start,
            length,
        )
}

/// Whether a text starts with a scheme followed by `://` as URLs are read.
pub open spec fn has_scheme(s: Seq<char>) -> bool {
    starts_with_scheme_in(without_left_out(s))
}

/// What is read in a text that may lack the scheme, which is `https` then.
pub open spec fn parsed_with_default_scheme(input: Seq<char>) -> Result<UrlView, ParseError> {
    if has_scheme(input) {
        url_parsed(input)
    } else {
        url_parsed("https://"@ + input)
    }
}

/// Whether the text of a URL starts with a scheme and is read as that URL, where it is read at
/// all. A host with a label of many hundred characters beyond ASCII can be written and not read.
pub open spec fn is_reread(url: UrlView) -> bool {
    &&& has_scheme(url.text)
    &&& url_parsed(url.text) is Ok ==> url_parsed(url.text)->Ok_0 == url
}

/// The characters of a text that may be missing.
pub open spec fn optional_chars(text: Option<String>) -> Option<Seq<char>> {
    match text {
        Some(text) => Some(text@),
        None => None,
    }
}

/// Calls `url::Url::parse`. The text of a URL with a host that names no file starts with its
/// scheme, and is read as that URL where it is read at all.
#[verifier::external_body]
fn outside_parse(input: &str) -> (parsed: Result<OutsideUrl, ParseError>)
    ensures
        match parsed {
            Ok(url) => url_parsed(input@) is Ok && url_parsed(input@)->Ok_0 == url_contents(url),
            Err(error) => url_parsed(input@) is Err && url_parsed(input@)->Err_0 == error,
        },
        parsed matches Ok(url) ==> can_be_reread(url_contents(url)) ==> is_reread(url_contents(url)),
{
    OutsideUrl::parse(input).map_err(|error| match error {
        OutsideError::EmptyHost => ParseError::EmptyHost,
        OutsideError::IdnaError => ParseError::IdnaError,
        OutsideError::InvalidPort => ParseError::InvalidPort,
        OutsideError::InvalidIpv4Address => ParseError::InvalidIpv4Address,
        OutsideError::InvalidIpv6Address => ParseError::InvalidIpv6Address,
        OutsideError::InvalidDomainCharacter => ParseError::InvalidDomainCharacter,
        OutsideError::RelativeUrlWithoutBase => ParseError::RelativeUrlWithoutBase,
        OutsideError::RelativeUrlWithCannotBeABaseBase => ParseError::RelativeUrlWithCannotBeABaseBase,
        OutsideError::SetHostOnCannotBeABaseUrl => ParseError::SetHostOnCannotBeABaseUrl,
        OutsideError::Overflow => ParseError::Overflow,
        _ => ParseError::Other,
    })
}

/// Calls `url::Url::clone`, which gives a URL that holds the same.
#[verifier::external_body]
fn outside_copy(url: &OutsideUrl) -> (copy: OutsideUrl)
    ensures
        url_contents(copy) == url_contents(*url),
{
    url.clone()
}

/// Calls `url::Url::as_str`, which gives the text of the URL.
#[verifier::external_body]
fn outside_text(url: &OutsideUrl) -> (text: &str)
    ensures
        text@ == url_contents(*url).text,
{
    url.as_str()
}

/// Calls `url::Url::host_str`, which gives the host of the URL.
#[verifier::external_body]
fn outside_host(url: &OutsideUrl) -> (host: Option<String>)
    ensures
        optional_chars(host) == url_contents(*url).host,
{
    url.host_str().map(String::from)
}

/// Calls `url::Url::scheme`, which gives the scheme of the URL.
#[verifier::external_body]
fn outside_scheme(url: &OutsideUrl) -> (scheme: &str)
    ensures
        scheme@ == url_contents(*url).scheme,
{
    url.scheme()
}

/// Calls `url::Url::path`, which gives the path of the URL.
#[verifier::external_body]
fn outside_path(url: &OutsideUrl) -> (path: &str)
    ensures
        path@ == url_contents(*url).path,
{
    url.path()
}

/// Calls `url::Url::query`, which gives the query of the URL.
#[verifier::external_body]
fn outside_query(url: &OutsideUrl) -> (query: Option<String>)
    ensures
        optional_chars(query) == url_contents(*url).query,
{
    url.query().map(String::from)
}

/// Calls `url::Url::fragment`, which gives the fragment of the URL.
#[verifier::external_body]
fn outside_fragment(url: &OutsideUrl) -> (fragment: Option<String>)
    ensures
        optional_chars(fragment) == url_contents(*url).fragment,
{
    url.fragment().map(String::from)
}

/// Calls `url::Url::query_pairs`, which reads the query as a form-encoded one. What it makes of
/// bytes that are no text is not said.
#[verifier::external_body]
fn outside_query_pairs(url: &OutsideUrl) -> (pairs: Vec<(String, String)>)
    ensures
        pair_chars(pairs@) == (match url_contents(*url).query {
            Some(query) => if is_clean(query) {
                clean_pairs(query)
            } else {
                form_pairs(query)
            },
            None => Seq::empty(),
        }),
{
    url.query_pairs().into_owned().collect()
}

/// Calls `url::Host::parse` and writes what it gives. A plain domain is taken as it is.
#[verifier::external_body]
fn outside_parse_host(host: &str) -> (written: Option<String>)
    ensures
        optional_chars(written) == (if is_plain_domain(host@) {
            Some(host@)
        } else {
            host_parsed(host@)
        }),
{
    url::Host::parse(host).ok().map(|host| host.to_string())
}

/// Calls `url::Host::parse_opaque` and writes what it gives. A plain domain is taken as it is.
#[verifier::external_body]
fn outside_parse_opaque_host(host: &str) -> (written: Option<String>)
    ensures
        optional_chars(written) == (if is_plain_domain(host@) {
            Some(host@)
        } else {
            opaque_host_parsed(host@)
        }),
{
    url::Host::parse_opaque(host).ok().map(|host| host.to_string())
}

/// Calls `url::Url::set_host` on a copy of a URL that has a host. It takes the part before a colon,
/// and reads it with `url::Host::parse` where the scheme is a special one and with
/// `url::Host::parse_opaque` elsewhere. What is written takes the place of the host in the text,
/// and the other parts stay. The text of the new URL is read as that URL, where it has a host,
/// names no file and is read at all.
#[verifier::external_body]
fn outside_set_host(url: &OutsideUrl, host: &str) -> (changed: Option<OutsideUrl>)
    requires
        url_contents(*url).host is Some,
        host_written(is_special(url_contents(*url).scheme), host@) matches Some(written)
            ==> host_fits(url_contents(*url), written),
    ensures
        changed is Some <==> host_written(is_special(url_contents(*url).scheme), host@) is Some,
        changed matches Some(new) ==> url_contents(new) == with_host_in(
            url_contents(*url),
            host_written(is_special(url_contents(*url).scheme), host@)->0,
        ),
        changed matches Some(new) ==> can_be_reread(url_contents(new)) ==> is_reread(
            url_contents(new),
        ),
{
    let mut changed = url.clone();
    changed.set_host(Some(host)).ok()?;
    Some(changed)
}

/// Calls `url::Url::set_query` on a copy of a URL that has a host. A form-encoded query is taken
/// over as it is, and takes the place of the query in the text; the other parts stay. The text of
/// the new URL is read as that URL, where it names no file and is read at all.
#[verifier::external_body]
fn outside_set_query(url: &OutsideUrl, query: Option<&str>) -> (changed: OutsideUrl)
    requires
        url_contents(*url).host is Some,
        query matches Some(query) ==> is_form_text(query@),
        query_fits(url_contents(*url), (if query is Some { Some(query->0@) } else { None })),
    ensures
        url_contents(changed) == with_query_in(
            url_contents(*url),
            (if query is Some { Some(query->0@) } else { None }),
        ),
        can_be_reread(url_contents(changed)) ==> is_reread(url_contents(changed)),
{
    let mut changed = url.clone();
    changed.set_query(query);
    changed
}

/// A URL.
pub struct Url {
    inner: OutsideUrl,
}

impl View for Url {
    type V = UrlView;

    closed spec fn view(&self) -> UrlView {
        url_contents(self.inner)
    }
}

impl Url {
    /// The URL with a value of the `url` crate.
    pub fn new(inner: OutsideUrl) -> (url: Url)
        ensures
            url@ == url_contents(inner),
    {
        Url { inner }
    }

    /// The value of the `url` crate.
    pub fn outside(&self) -> (inner: &OutsideUrl)
        ensures
            url_contents(*inner) == self@,
    {
        &self.inner
    }

    /// Reads an absolute URL.
    pub fn parse(input: &str) -> (parsed: Result<Url, ParseError>)
        ensures
            match parsed {
                Ok(url) => url_parsed(input@) == Ok::<UrlView, ParseError>(url@),
                Err(error) => url_parsed(input@) == Err::<UrlView, ParseError>(error),
            },
            parsed matches Ok(url) ==> can_be_reread(url@) ==> is_reread(url@),
    {
        match outside_parse(input) {
            Ok(inner) => Ok(Url { inner }),
            Err(error) => Err(error),
        }
    }

    /// The text of the URL.
    pub fn as_str(&self) -> (text: &str)
        ensures
            text@ == self@.text,
    {
        outside_text(&self.inner)
    }

    /// A copy of the URL.
    pub fn copy(&self) -> (url: Url)
        ensures
            url@ == self@,
    {
        Url { inner: outside_copy(&self.inner) }
    }

    /// The host, if the URL has one.
    pub fn host_str(&self) -> (host: Option<String>)
        ensures
            optional_chars(host) == self@.host,
    {
        outside_host(&self.inner)
    }

    /// The names and values in the query.
    pub fn query_pairs(&self) -> (pairs: Vec<(String, String)>)
        ensures
            pair_chars(pairs@) == pairs_of(self@),
    {
        outside_query_pairs(&self.inner)
    }

    /// Whether the scheme is a special one.
    pub fn has_special_scheme(&self) -> (special: bool)
        ensures
            special == is_special(self@.scheme),
    {
        let scheme = outside_scheme(&self.inner).to_owned();
        scheme == "http".to_owned() || scheme == "https".to_owned() || scheme == "ws".to_owned()
            || scheme == "wss".to_owned() || scheme == "ftp".to_owned() || scheme
            == "file".to_owned()
    }

    /// Whether a host as it is written fits into a URL that has a host.
    pub fn can_take_host(&self, host: &str) -> (possible: bool)
        requires
            self@.host is Some,
        ensures
            possible == host_fits(self@, host@),
    {
        let size = self.as_str().unicode_len() as u128;
        let last = match outside_fragment(&self.inner) {
            Some(fragment) => fragment.as_str().unicode_len() as u128 + 1,
            None => match outside_query(&self.inner) {
                Some(query) => query.as_str().unicode_len() as u128 + 1,
                None => outside_path(&self.inner).unicode_len() as u128,
            },
        };
        let dropped = match self.host_str() {
            Some(host) => host.as_str().unicode_len() as u128,
            None => 0,
        };
        size + host.unicode_len() as u128 <= MAX_URL_POSITION as u128 + last + dropped
    }

    /// Whether a query fits into the URL.
    pub fn can_take_query(&self, query: Option<&str>) -> (possible: bool)
        ensures
            possible == query_fits(self@, (if query is Some { Some(query->0@) } else { None })),
    {
        let size = self.as_str().unicode_len() as u128;
        let dropped = match outside_query(&self.inner) {
            Some(query) => query.as_str().unicode_len() as u128 + 1,
            None => 0,
        };
        let added = match query {
            Some(query) => query.unicode_len() as u128 + 1,
            None => 0,
        };
        match (outside_fragment(&self.inner), query) {
            (Some(fragment), _) => {
                let kept = fragment.as_str().unicode_len() as u128 + 1;
                size + added <= MAX_URL_POSITION as u128 + kept + dropped
            },
            (None, Some(_)) => size <= MAX_URL_POSITION as u128 + dropped,
            (None, None) => true,
        }
    }

    /// The URL with another host, unless that is refused.
    pub fn with_host(&self, host: &str) -> (changed: Option<Url>)
        requires
            self@.host is Some,
            host_written(is_special(self@.scheme), host@) matches Some(written) ==> host_fits(
                self@,
                written,
            ),
        ensures
            changed is Some <==> host_written(is_special(self@.scheme), host@) is Some,
            changed matches Some(new) ==> new@ == with_host_in(
                self@,
                host_written(is_special(self@.scheme), host@)->0,
            ),
            changed matches Some(new) ==> can_be_reread(new@) ==> is_reread(new@),
    {
        match outside_set_host(&self.inner, host) {
            Some(inner) => Some(Url { inner }),
            None => None,
        }
    }

    /// The URL with another form-encoded query, or without one.
    pub fn with_query(&self, query: Option<&str>) -> (changed: Url)
        requires
            self@.host is Some,
            query matches Some(query) ==> is_form_text(query@),
            query_fits(self@, (if query is Some { Some(query->0@) } else { None })),
        ensures
            changed@ == with_query_in(self@, (if query is Some { Some(query->0@) } else { None })),
            can_be_reread(changed@) ==> is_reread(changed@),
    {
        Url { inner: outside_set_query(&self.inner, query) }
    }
}

/// How a host is written in a URL with a special scheme or another one; `None` where it is refused.
pub fn write_host(special: bool, host: &str) -> (written: Option<String>)
    ensures
        optional_chars(written) == host_written(special, host@),
{
    let chars = chars_of(host);
    let mut end = chars.len();
    if !(chars.len() > 0 && chars[0] == '[' && chars[chars.len() - 1] == ']') {
        if chars.len() > 0 && chars[0] == ':' {
            return None;
        }
        end = 0;
        while end < chars.len() && chars[end] != ':'
            invariant
                chars@ == host@,
                end <= chars@.len(),
                forall|i: int| 0 <= i < end ==> #[trigger] chars@[i] != ':',
            decreases chars@.len() - end,
        {
            end += 1;
        }
        proof {
            let before = host@.take(end as int);
            let rest = if end < host@.len() {
                host@.skip(end + 1)
            } else {
                Seq::empty()
            };
            lemma_first(before, ':', rest);
            if end < host@.len() {
                assert(before + seq![':'] + rest =~= host@);
            } else {
                assert(before =~= host@);
            }
        }
    }
    let part = string_of(slice_subrange(chars.as_slice(), 0, end));
    proof {
        if end == host@.len() {
            assert(host@.take(end as int) =~= host@);
        }
        assert(chars@.subrange(0, end as int) =~= host@.take(end as int));
    }
    if special {
        outside_parse_host(part.as_str())
    } else {
        outside_parse_opaque_host(part.as_str())
    }
}

/// A plain domain is written as it is, whatever the scheme.
pub proof fn law_plain_domain_is_written(special: bool, host: Seq<char>)
    requires
        is_plain_domain(host),
    ensures
        host_written(special, host) == Some(host),
{
    assert forall|i: int| 0 <= i < host.len() implies #[trigger] host[i] != ':' by {
        assert(is_small_letter(host[i]) || is_digit(host[i]) || host[i] == '.' || host[i] == '-');
    }
    lemma_first(host, ':', Seq::empty());
    assert(host.take(host.len() as int) =~= host);
    assert(host[0] != '[' && host[0] != ':');
}

fn is_ascii_letter(c: char) -> (found: bool)
    ensures
        found == is_letter(c),
{
    ('a' <= c && c <= 'z') || ('A' <= c && c <= 'Z')
}

fn can_be_in_scheme(c: char) -> (found: bool)
    ensures
        found == is_scheme_char(c),
{
    is_ascii_letter(c) || ('0' <= c && c <= '9') || c == '+' || c == '-' || c == '.'
}

/// The characters of a text that are not left out.
fn drop_left_out(s: &str) -> (kept: Vec<char>)
    ensures
        kept@ == without_left_out(s@),
{
    let chars = chars_of(s);
    let mut kept: Vec<char> = Vec::new();
    let mut i: usize = 0;
    proof {
        reveal(Seq::filter);
        assert(kept@ =~= without_left_out(s@.take(0)));
    }
    while i < chars.len()
        invariant
            i <= chars@.len(),
            chars@ == s@,
            kept@ == without_left_out(s@.take(i as int)),
        decreases chars@.len() - i,
    {
        let c = chars[i];
        proof {
            reveal(Seq::filter);
            assert(s@.take(i + 1).drop_last() =~= s@.take(i as int));
            assert(s@.take(i + 1).last() == c);
        }
        if !(c == '\t' || c == '\n' || c == '\r') {
            kept.push(c);
        }
        i += 1;
    }
    proof {
        assert(s@.take(i as int) =~= s@);
    }
    kept
}

/// Whether a text starts with a scheme followed by `://`, as URLs are read.
pub fn starts_with_scheme(s: &str) -> (found: bool)
    ensures
        found == has_scheme(s@),
{
    let chars = drop_left_out(s);
    let ghost kept = chars@;
    let mut start: usize = 0;
    while start < chars.len() && chars[start] <= ' '
        invariant
            chars@ == kept,
            start <= chars@.len(),
            forall|i: int| 0 <= i < start ==> #[trigger] chars@[i] <= ' ',
        decreases chars@.len() - start,
    {
        start += 1;
    }
    let mut end = start;
    while end < chars.len() && can_be_in_scheme(chars[end])
        invariant
            chars@ == kept,
            start <= end <= chars@.len(),
            forall|i: int| start <= i < end ==> is_scheme_char(#[trigger] chars@[i]),
        decreases chars@.len() - end,
    {
        end += 1;
    }
    let found = end > start && is_ascii_letter(chars[start]) && chars.len() - end >= 3
        && chars[end] == ':' && chars[end + 1] == '/' && chars[end + 2] == '/';
    proof {
        if found {
            assert(has_scheme_at(kept, start as int, end - start));
        }
        if starts_with_scheme_in(kept) {
            let (from, length) = choose|from: int, length: int|
                (forall|i: int| 0 <= i < from ==> #[trigger] kept[i] <= ' ') && #[trigger] has_scheme_at(
                    kept,
                    from,
                    length,
                );
            assert(is_letter(kept[from]));
            assert(from == start);
            if from + length < end {
                assert(is_scheme_char(chars@[from + length]));
            }
            if end < from + length {
                assert(is_scheme_char(kept[end as int]));
            }
        }
    }
    found
}

/// The text that is read for a URL: one without a scheme gets `https://`.
pub fn with_default_scheme(input: &str) -> (text: String)
    ensures
        text@ == (if has_scheme(input@) {
            input@
        } else {
            "https://"@ + input@
        }),
{
    if starts_with_scheme(input) {
        input.to_owned()
    } else {
        let mut text = String::from_str("https://");
        text.append(input);
        text
    }
}

/// Reads a URL, taking one without a scheme for an `https` URL. The text of a URL with a host that
/// names no file is read as that URL again, where it is read at all.
pub fn parse_with_default_scheme(input: &str) -> (parsed: Result<Url, ParseError>)
    ensures
        match parsed {
            Ok(url) => parsed_with_default_scheme(input@) == Ok::<UrlView, ParseError>(url@),
            Err(error) => parsed_with_default_scheme(input@) == Err::<UrlView, ParseError>(error),
        },
        parsed matches Ok(url) ==> can_be_reread(url@) ==> is_reread(url@) && (parsed_with_default_scheme(
            url@.text,
        ) matches Ok(again) ==> again == url@),
{
    Url::parse(with_default_scheme(input).as_str())
}

} // verus!
