//! Which requests the signer of `aws_sigv4` can be given.
//!
//! What it finds wrong with a request it reports, as a rule. On some requests it panics
//! instead; `can_sign` tells them apart beforehand.

use vstd::hash_map::StringHashMap;
use vstd::prelude::*;
use vstd::string::*;

use crate::text;

verus! {

/// The longest URL that the signer reads, in bytes, and the longest path and query that it
/// can put together again.
pub const MAX_URL_LEN: usize = 65534;

/// More headers than this the signer never holds.
pub const MAX_HEADERS: usize = 24576;

/// Headers of more different names than this the signer may fail to hold, depending on how
/// its hashes of the names fall together.
pub const MAX_HEADER_NAMES: usize = 6549;

/// The longest name of a header that the signer takes, in characters.
pub const MAX_NAME_LEN: usize = 65535;

/// Names and values of headers.
pub open spec fn owned_headers(headers: Seq<(String, String)>) -> Seq<(Seq<char>, Seq<char>)> {
    headers.map_values(|h: (String, String)| (h.0@, h.1@))
}

/// The names of `headers`.
pub open spec fn names_of(headers: Seq<(Seq<char>, Seq<char>)>) -> Seq<Seq<char>> {
    headers.map_values(|h: (Seq<char>, Seq<char>)| h.0)
}

/// Whether one of the headers is `host`.
pub open spec fn names_host(headers: Seq<(Seq<char>, Seq<char>)>) -> bool {
    exists|i: int|
        0 <= i < headers.len() && text::ascii_lowercase((#[trigger] headers[i]).0) == "host"@
}

/// `/`, `?` or `#`.
pub open spec fn is_delimiter(b: u8) -> bool {
    b == 0x2f || b == 0x3f || b == 0x23
}

/// Where the first `/`, `?` or `#` stands in `url`; the length of `url` when there is none.
pub open spec fn first_delimiter(url: Seq<u8>) -> int
    decreases url.len(),
{
    if url.len() == 0 || is_delimiter(url[0]) {
        0
    } else {
        1 + first_delimiter(url.skip(1))
    }
}

/// Whether `url` is `*`, which stands for the server as a whole.
pub open spec fn is_asterisk(url: Seq<u8>) -> bool {
    url.len() == 1 && url[0] == 0x2a
}

/// Whether `url` has nothing but an authority, such as `example.com`, or is misshapen.
pub open spec fn is_bare(url: Seq<u8>) -> bool {
    first_delimiter(url) == url.len() && !is_asterisk(url)
}

/// Whether `url` begins with a scheme: its first `/` is one of two behind a colon.
pub open spec fn has_scheme(url: Seq<u8>) -> bool {
    let slash = first_delimiter(url);
    0 < slash && slash + 1 < url.len() && url[slash - 1] == 0x3a && url[slash] == 0x2f && url[slash
        + 1] == 0x2f
}

/// A byte that is refused wherever it stands before a `#`: a control byte, a space, `<` or
/// `>`.
pub open spec fn is_refused_byte(b: u8) -> bool {
    b <= 0x20 || b == 0x3c || b == 0x3e || b == 0x7f
}

/// Whether a refused byte stands in `url` before a `#`.
pub open spec fn has_refused_byte(url: Seq<u8>) -> bool
    decreases url.len(),
{
    if url.len() == 0 || url[0] == 0x23 {
        false
    } else {
        is_refused_byte(url[0]) || has_refused_byte(url.skip(1))
    }
}

/// A byte that an authority may hold.
pub open spec fn is_authority_byte(b: u8) -> bool {
    ||| b == 0x21 || b == 0x3d || b == 0x5d || b == 0x5f || b == 0x7e
    ||| 0x24 <= b <= 0x3b
    ||| 0x40 <= b <= 0x5b
    ||| 0x61 <= b <= 0x7a
}

/// Whether `url`, taken for an authority, is refused: for a byte that none holds; for nothing
/// after an `@`; for one kind of square bracket without the other; or, with neither user nor
/// brackets, for a percent sign or a second colon.
pub open spec fn is_refused_authority(url: Seq<u8>) -> bool {
    ||| exists|i: int| 0 <= i < url.len() && !is_authority_byte(#[trigger] url[i])
    ||| url.len() > 0 && url.last() == 0x40
    ||| url.contains(0x5b) != url.contains(0x5d)
    ||| !url.contains(0x40) && !url.contains(0x5d) && (url.contains(0x25) || count(url, 0x3a) > 1)
}

/// How often `b` stands in `url`.
pub open spec fn count(url: Seq<u8>, b: u8) -> nat
    decreases url.len(),
{
    if url.len() == 0 {
        0
    } else {
        count(url.drop_last(), b) + (if url.last() == b {
            1nat
        } else {
            0nat
        })
    }
}

/// Whether the signer reports that it cannot read `url`, for one of these reasons: there is
/// nothing of it, it is too long, it holds a byte that no URL holds, it is no authority where
/// there is nothing else, or something else than a path stands without a scheme. There are
/// other reasons.
pub open spec fn is_refused_url(url: Seq<u8>) -> bool {
    ||| url.len() == 0
    ||| url.len() > MAX_URL_LEN
    ||| has_refused_byte(url)
    ||| is_bare(url) && is_refused_authority(url)
    ||| !is_bare(url) && !is_asterisk(url) && url[0] != 0x2f && !has_scheme(url)
}

/// A byte that the path or the query of a URL may hold as it is, `?` among them.
pub open spec fn is_plain_byte(b: u8) -> bool {
    ||| b == 0x21 || b == 0x3d || b == 0x7c || b == 0x7e
    ||| 0x24 <= b <= 0x3b
    ||| 0x3f <= b <= 0x5f
    ||| 0x61 <= b <= 0x7a
}

/// A byte of a plain host name: an ASCII letter or digit, `-` or `.`.
pub open spec fn is_host_byte(b: u8) -> bool {
    ||| 0x61 <= b <= 0x7a
    ||| 0x41 <= b <= 0x5a
    ||| 0x30 <= b <= 0x39
    ||| b == 0x2d || b == 0x2e
}

/// Whether `url` is `scheme`, a plain host name, and a path and a query of plain bytes, or
/// nothing, behind it.
pub open spec fn is_plain_behind(url: Seq<u8>, scheme: Seq<u8>) -> bool {
    let host = scheme.len() as int;
    let path = host + first_delimiter(url.skip(host));
    &&& scheme.is_prefix_of(url)
    &&& host < path <= url.len()
    &&& forall|i: int| host <= i < path ==> is_host_byte(#[trigger] url[i])
    &&& forall|i: int| path <= i < url.len() ==> is_plain_byte(#[trigger] url[i])
}

/// Whether `url` is a plain full URL, such as
/// `https://s3.us-east-1.amazonaws.com/bucket?list-type=2`, and not too long. The signer reads
/// every one of them, and others.
pub open spec fn is_plain_url(url: Seq<u8>) -> bool {
    &&& url.len() <= MAX_URL_LEN
    &&& is_plain_behind(url, "https://".spec_bytes()) || is_plain_behind(
        url,
        "http://".spec_bytes(),
    )
}

/// A character that the name of a header may hold: a letter, digit or sign of ASCII, or the
/// Kelvin sign, whose lower case is `k`.
pub open spec fn is_token(c: char) -> bool {
    ||| 'a' <= c && c <= 'z'
    ||| 'A' <= c && c <= 'Z'
    ||| '0' <= c && c <= '9'
    ||| c == '!' || c == '#' || c == '$' || c == '%' || c == '&' || c == '\'' || c == '*'
    ||| c == '+' || c == '-' || c == '.' || c == '^' || c == '_' || c == '`' || c == '|'
    ||| c == '~' || c == '\u{212a}'
}

/// A control character that the value of a header cannot hold.
pub open spec fn is_refused_in_value(c: char) -> bool {
    (c < ' ' && c != '\t') || c == '\u{7f}'
}

/// Whether the value of a header is refused: for a control character.
pub open spec fn is_refused_value(value: Seq<char>) -> bool {
    exists|i: int| 0 <= i < value.len() && is_refused_in_value(#[trigger] value[i])
}

/// Whether the name of a header is refused: because there is nothing of it, because it is too
/// long, or for a character that no name holds.
pub open spec fn is_refused_name(name: Seq<char>) -> bool {
    ||| name.len() == 0
    ||| name.len() > MAX_NAME_LEN
    ||| exists|i: int| 0 <= i < name.len() && !is_token(#[trigger] name[i])
}

/// Whether the signer reports that it cannot take the header.
pub open spec fn is_refused_header(header: (Seq<char>, Seq<char>)) -> bool {
    is_refused_name(header.0) || is_refused_value(header.1)
}

/// Whether one of the headers is refused.
pub open spec fn has_refused_header(headers: Seq<(Seq<char>, Seq<char>)>) -> bool {
    exists|i: int| 0 <= i < headers.len() && is_refused_header(#[trigger] headers[i])
}

/// A byte of a query that is never percent-encoded: an ASCII letter or digit, `-`, `.`, `_`
/// or `~`.
pub open spec fn is_kept(b: u8) -> bool {
    ||| 0x61 <= b <= 0x7a
    ||| 0x41 <= b <= 0x5a
    ||| 0x30 <= b <= 0x39
    ||| b == 0x2d || b == 0x2e || b == 0x5f || b == 0x7e
}

/// The value of a hexadecimal digit.
pub open spec fn hex_value(b: u8) -> Option<int> {
    if 0x30 <= b <= 0x39 {
        Some(b - 0x30)
    } else if 0x41 <= b <= 0x46 {
        Some(b - 0x37)
    } else if 0x61 <= b <= 0x66 {
        Some(b - 0x57)
    } else {
        None
    }
}

/// The byte that stands percent-encoded at `at` in `query`; -1 where none does.
pub open spec fn octet(query: Seq<u8>, at: int) -> int {
    if 0 <= at && at + 3 <= query.len() && query[at] == 0x25 {
        match (hex_value(query[at + 1]), hex_value(query[at + 2])) {
            (Some(a), Some(b)) => 16 * a + b,
            _ => -1,
        }
    } else {
        -1
    }
}

/// How many bytes the character has in UTF-8 that stands percent-encoded at `at` in `query`;
/// 0 where the percent-encoded bytes there are no character, or there are none.
pub open spec fn escaped_char(query: Seq<u8>, at: int) -> nat {
    let a = octet(query, at);
    let b = octet(query, at + 3);
    let c = octet(query, at + 6);
    let d = octet(query, at + 9);
    if 0 <= a < 0x80 {
        1
    } else if 0xc2 <= a <= 0xdf && 0x80 <= b <= 0xbf {
        2
    } else if (a == 0xe0 && 0xa0 <= b <= 0xbf || a == 0xed && 0x80 <= b <= 0x9f || 0xe1 <= a <= 0xef
        && a != 0xed && 0x80 <= b <= 0xbf) && 0x80 <= c <= 0xbf {
        3
    } else if (a == 0xf0 && 0x90 <= b <= 0xbf || a == 0xf4 && 0x80 <= b <= 0x8f || 0xf1 <= a <= 0xf3
        && 0x80 <= b <= 0xbf) && 0x80 <= c <= 0xbf && 0x80 <= d <= 0xbf {
        4
    } else {
        0
    }
}

/// A place in a query.
#[derive(Clone, Copy, PartialEq, Eq, Structural)]
pub enum Place {
    /// Before the first byte of a parameter.
    Start,
    /// In the name of a parameter.
    Name,
    /// In the value of a parameter, behind its `=`.
    Value,
}

/// How long the query of `url` from `at` on, up to a `#`, gets when its parameters are
/// decoded, and encoded anew. A parameter takes a `?` or `&` before it and an `=` in it; an
/// empty one is dropped. A byte that stands percent-encoded and is no part of a character in
/// UTF-8 counts as a replacement character of its own, which takes nine bytes; some of them
/// may share one.
pub open spec fn encoded_len(url: Seq<u8>, at: int, place: Place) -> nat
    decreases url.len() - at,
{
    let opening: nat = if place == Place::Start {
        2
    } else {
        0
    };
    let inside = if place == Place::Start {
        Place::Name
    } else {
        place
    };
    if !(0 <= at < url.len()) || url[at] == 0x23 {
        0
    } else if url[at] == 0x26 {
        encoded_len(url, at + 1, Place::Start)
    } else if url[at] == 0x3d && place != Place::Value {
        opening + encoded_len(url, at + 1, Place::Value)
    } else if is_kept(url[at]) {
        opening + 1 + encoded_len(url, at + 1, inside)
    } else if escaped_char(url, at) > 0 {
        opening + escaped_len(url, at) + encoded_len(url, at + 3 * escaped_char(url, at), inside)
    } else if octet(url, at) >= 0 {
        opening + 9 + encoded_len(url, at + 3, inside)
    } else {
        opening + 3 + encoded_len(url, at + 1, inside)
    }
}

/// How long the character that stands percent-encoded at `at` gets when it is encoded anew.
pub open spec fn escaped_len(url: Seq<u8>, at: int) -> nat {
    if escaped_char(url, at) == 1 && is_kept(octet(url, at) as u8) {
        1
    } else {
        3 * escaped_char(url, at)
    }
}

/// How long the path and query of `url` from `at` on, up to a `#`, get when the parameters
/// of the query are encoded anew.
pub open spec fn rewritten_len(url: Seq<u8>, at: int) -> nat
    decreases url.len() - at,
{
    if !(0 <= at < url.len()) || url[at] == 0x23 {
        0
    } else if url[at] == 0x3f {
        encoded_len(url, at + 1, Place::Start)
    } else {
        1 + rewritten_len(url, at + 1)
    }
}

/// Where the path of `url` begins: behind scheme and authority, where it has them.
pub open spec fn path_start(url: Seq<u8>) -> int {
    let slash = first_delimiter(url);
    if has_scheme(url) {
        slash + 2 + first_delimiter(url.skip(slash + 2))
    } else {
        slash
    }
}

/// How long the path and query of `url` get when the parameters of the query are encoded
/// anew. A path that does not begin with `/` gets one.
pub open spec fn path_and_query_len(url: Seq<u8>) -> nat {
    let start = path_start(url);
    rewritten_len(url, start) + (if 0 <= start < url.len() && url[start] == 0x2f {
        0nat
    } else {
        1nat
    })
}

/// Whether the signer can be given a request for `url` with `headers`. A URL that it reports
/// as unreadable, it never goes on with. Otherwise there must not be more headers than it
/// holds; and, unless it reports one of them, the URL must not be a bare authority; a bare
/// path or `*` must come with a `host` header; and the query must not outgrow the limit when
/// it is encoded anew. Outside of this the signer may panic.
pub open spec fn is_signable(url: Seq<u8>, headers: Seq<(Seq<char>, Seq<char>)>) -> bool {
    ||| is_refused_url(url)
    ||| {
        &&& headers.len() <= MAX_HEADERS
        &&& names_of(headers).to_set().len() <= MAX_HEADER_NAMES
        &&& has_refused_header(headers) || {
            &&& !is_bare(url)
            &&& url[0] == 0x2f || is_asterisk(url) ==> names_host(headers)
            &&& path_and_query_len(url) <= MAX_URL_LEN
        }
    }
}

/// Where the first `/`, `?` or `#` stands in `url` from `from` on; the length of `url` when
/// there is none.
fn find_delimiter(url: &[u8], from: usize) -> (r: usize)
    requires
        from <= url.len(),
    ensures
        from <= r <= url.len(),
        r == from + first_delimiter(url@.skip(from as int)),
{
    let mut i: usize = from;
    while i < url.len()
        invariant
            from <= i <= url.len(),
            first_delimiter(url@.skip(from as int)) == i - from + first_delimiter(
                url@.skip(i as int),
            ),
        decreases url.len() - i,
    {
        let b: u8 = url[i];
        if b == 0x2f || b == 0x3f || b == 0x23 {
            return i;
        }
        assert(url@.skip(i as int).skip(1) == url@.skip(i + 1));
        i = i + 1;
    }
    i
}

/// Whether a refused byte stands in `url` before a `#`.
fn find_refused_byte(url: &[u8]) -> (r: bool)
    ensures
        r == has_refused_byte(url@),
{
    assert(url@.skip(0) == url@);
    for i in 0..url.len()
        invariant
            has_refused_byte(url@) == has_refused_byte(url@.skip(i as int)),
    {
        let b: u8 = url[i];
        assert(url@.skip(i as int).skip(1) == url@.skip(i + 1));
        if b == 0x23 {
            return false;
        }
        if b <= 0x20 || b == 0x3c || b == 0x3e || b == 0x7f {
            return true;
        }
    }
    false
}

/// How often `b` stands in `url`.
fn count_byte(url: &[u8], b: u8) -> (r: usize)
    ensures
        r == count(url@, b),
        r > 0 <==> url@.contains(b),
{
    let mut n: usize = 0;
    for i in 0..url.len()
        invariant
            n == count(url@.take(i as int), b),
            n <= i,
            n > 0 <==> exists|k: int| 0 <= k < i && url@[k] == b,
    {
        assert(url@.take(i + 1).drop_last() == url@.take(i as int));
        if url[i] == b {
            assert(url@[i as int] == b);
            n = n + 1;
        }
    }
    assert(url@.take(url.len() as int) == url@);
    n
}

/// Whether `url`, taken for an authority, is refused.
fn refused_authority(url: &[u8]) -> (r: bool)
    ensures
        r == is_refused_authority(url@),
{
    for i in 0..url.len()
        invariant
            forall|k: int| 0 <= k < i ==> is_authority_byte(#[trigger] url@[k]),
    {
        let b: u8 = url[i];
        if !(b == 0x21 || b == 0x3d || b == 0x5d || b == 0x5f || b == 0x7e || (0x24 <= b && b
            <= 0x3b) || (0x40 <= b && b <= 0x5b) || (0x61 <= b && b <= 0x7a)) {
            assert(!is_authority_byte(url@[i as int]));
            return true;
        }
    }
    if url.len() > 0 && url[url.len() - 1] == 0x40 {
        return true;
    }
    let open = count_byte(url, 0x5b) > 0;
    let close = count_byte(url, 0x5d) > 0;
    let user = count_byte(url, 0x40) > 0;
    open != close || (!user && !close && (count_byte(url, 0x25) > 0 || count_byte(url, 0x3a) > 1))
}

/// Whether one of the headers is `host`.
fn find_host(headers: &[(String, String)]) -> (r: bool)
    ensures
        r == names_host(owned_headers(headers@)),
{
    let host = text::chars_of("host");
    for i in 0..headers.len()
        invariant
            host@ == "host"@,
            forall|k: int|
                0 <= k < i ==> text::ascii_lowercase((#[trigger] owned_headers(headers@)[k]).0)
                    != "host"@,
    {
        let name = text::chars_of(headers[i].0.as_str());
        let ghost lower = text::ascii_lowercase(name@);
        assert(owned_headers(headers@)[i as int].0 == name@);
        if name.len() == host.len() && text::begins_with(&name, &host) {
            assert(lower == host@);
            return true;
        }
        assert(lower == host@ ==> lower.len() == host@.len() && host@.is_prefix_of(lower));
    }
    false
}

/// Whether the name of a header is refused.
fn refused_name(name: &str) -> (r: bool)
    ensures
        r == is_refused_name(name@),
{
    let v = text::chars_of(name);
    for i in 0..v.len()
        invariant
            v@ == name@,
            forall|k: int| 0 <= k < i ==> is_token(#[trigger] name@[k]),
    {
        let c = v[i];
        let token = ('a' <= c && c <= 'z') || ('A' <= c && c <= 'Z') || ('0' <= c && c <= '9') || c
            == '!' || c == '#' || c == '$' || c == '%' || c == '&' || c == '\'' || c == '*' || c
            == '+' || c == '-' || c == '.' || c == '^' || c == '_' || c == '`' || c == '|' || c
            == '~' || c == '\u{212a}';
        if !token {
            assert(!is_token(name@[i as int]));
            return true;
        }
    }
    v.len() == 0 || v.len() > MAX_NAME_LEN
}

/// Whether the value of a header is refused.
fn refused_value(value: &str) -> (r: bool)
    ensures
        r == is_refused_value(value@),
{
    let v = text::chars_of(value);
    for i in 0..v.len()
        invariant
            v@ == value@,
            forall|k: int| 0 <= k < i ==> !is_refused_in_value(#[trigger] value@[k]),
    {
        let c = v[i];
        if (c < ' ' && c != '\t') || c == '\u{7f}' {
            assert(is_refused_in_value(value@[i as int]));
            return true;
        }
    }
    false
}

/// Whether one of the headers is refused.
fn find_refused_header(headers: &[(String, String)]) -> (r: bool)
    ensures
        r == has_refused_header(owned_headers(headers@)),
{
    for i in 0..headers.len()
        invariant
            forall|k: int|
                0 <= k < i ==> !is_refused_header(#[trigger] owned_headers(headers@)[k]),
    {
        let ghost header = owned_headers(headers@)[i as int];
        let name = headers[i].0.as_str();
        let value = headers[i].1.as_str();
        assert(header.0 == name@ && header.1 == value@);
        if refused_name(name) || refused_value(value) {
            assert(is_refused_header(header));
            return true;
        }
    }
    false
}

/// How many different names the headers have.
fn count_names(headers: &[(String, String)]) -> (r: usize)
    ensures
        r == names_of(owned_headers(headers@)).to_set().len(),
{
    let ghost names = names_of(owned_headers(headers@));
    let mut seen: StringHashMap<bool> = StringHashMap::new();
    assert(seen@.dom() == names.take(0).to_set());
    for i in 0..headers.len()
        invariant
            names == names_of(owned_headers(headers@)),
            seen@.dom() == names.take(i as int).to_set(),
    {
        seen.insert(headers[i].0.clone(), true);
        proof {
            let before = names.take(i as int);
            let after = names.take(i + 1);
            assert(after == before.push(names[i as int]));
            assert(after[i as int] == names[i as int]);
            assert forall|n: Seq<char>| #[trigger]
                before.contains(n) implies after.contains(n) by {
                let k = choose|k: int| 0 <= k < i && before[k] == n;
                assert(after[k] == n);
            }
            assert(after.to_set() == before.to_set().insert(names[i as int]));
        }
    }
    assert(names.take(headers.len() as int) == names);
    seen.len()
}

/// The value of a hexadecimal digit.
fn hex_digit(b: u8) -> (r: Option<u16>)
    ensures
        match r {
            Some(n) => hex_value(b) == Some(n as int),
            None => hex_value(b) is None,
        },
{
    if 0x30 <= b && b <= 0x39 {
        Some((b - 0x30) as u16)
    } else if 0x41 <= b && b <= 0x46 {
        Some((b - 0x37) as u16)
    } else if 0x61 <= b && b <= 0x66 {
        Some((b - 0x57) as u16)
    } else {
        None
    }
}

/// The byte that stands percent-encoded at `at` in `query`.
fn octet_at(query: &[u8], at: usize) -> (r: Option<u16>)
    requires
        at <= MAX_URL_LEN + 9,
    ensures
        match r {
            Some(n) => octet(query@, at as int) == n,
            None => octet(query@, at as int) == -1,
        },
{
    if at + 3 <= query.len() && query[at] == 0x25 {
        match (hex_digit(query[at + 1]), hex_digit(query[at + 2])) {
            (Some(a), Some(b)) => Some(16 * a + b),
            _ => None,
        }
    } else {
        None
    }
}

/// Whether `octet` is there, and from `low` to `high`.
fn between(octet: Option<u16>, low: u16, high: u16) -> (r: bool)
    ensures
        r == (octet matches Some(n) && low <= n <= high),
{
    match octet {
        Some(n) => low <= n && n <= high,
        None => false,
    }
}

/// How many bytes the character has in UTF-8 that stands percent-encoded at `at` in `query`.
fn escaped_char_at(query: &[u8], at: usize) -> (r: usize)
    requires
        at <= MAX_URL_LEN,
    ensures
        r == escaped_char(query@, at as int),
        at + 3 * r <= query.len() || r == 0,
        r <= 4,
{
    let a = octet_at(query, at);
    let b = octet_at(query, at + 3);
    let c = octet_at(query, at + 6);
    let d = octet_at(query, at + 9);
    if between(a, 0, 0x7f) {
        1
    } else if between(a, 0xc2, 0xdf) && between(b, 0x80, 0xbf) {
        2
    } else if ((between(a, 0xe0, 0xe0) && between(b, 0xa0, 0xbf)) || (between(a, 0xed, 0xed)
        && between(b, 0x80, 0x9f)) || ((between(a, 0xe1, 0xec) || between(a, 0xee, 0xef))
        && between(b, 0x80, 0xbf))) && between(c, 0x80, 0xbf) {
        3
    } else if ((between(a, 0xf0, 0xf0) && between(b, 0x90, 0xbf)) || (between(a, 0xf4, 0xf4)
        && between(b, 0x80, 0x8f)) || (between(a, 0xf1, 0xf3) && between(b, 0x80, 0xbf)))
        && between(c, 0x80, 0xbf) && between(d, 0x80, 0xbf) {
        4
    } else {
        0
    }
}

/// Whether a byte of a query is never percent-encoded.
fn kept(b: u8) -> (r: bool)
    ensures
        r == is_kept(b),
{
    (0x61 <= b && b <= 0x7a) || (0x41 <= b && b <= 0x5a) || (0x30 <= b && b <= 0x39) || b == 0x2d
        || b == 0x2e || b == 0x5f || b == 0x7e
}

/// How long the query of `url` from `start` on gets when it is encoded anew.
fn count_query(url: &[u8], start: usize) -> (r: usize)
    requires
        start <= url.len() <= MAX_URL_LEN,
    ensures
        r == encoded_len(url@, start as int, Place::Start),
        r <= 11 * url.len(),
{
    let mut total: usize = 0;
    let mut place = Place::Start;
    let mut i: usize = start;
    while i < url.len() && url[i] != 0x23
        invariant
            start <= i <= url.len() <= MAX_URL_LEN,
            total <= 11 * i,
            total + encoded_len(url@, i as int, place) == encoded_len(
                url@,
                start as int,
                Place::Start,
            ),
        decreases url.len() - i,
    {
        let b: u8 = url[i];
        if b == 0x26 {
            place = Place::Start;
            i = i + 1;
        } else {
            if place == Place::Start {
                total = total + 2;
            }
            if b == 0x3d && place != Place::Value {
                place = Place::Value;
                i = i + 1;
            } else {
                if place == Place::Start {
                    place = Place::Name;
                }
                let n: usize = escaped_char_at(url, i);
                let first = octet_at(url, i);
                if kept(b) {
                    total = total + 1;
                    i = i + 1;
                } else if n > 0 {
                    total = total + match first {
                        Some(o) if n == 1 && kept(o as u8) => 1,
                        _ => 3 * n,
                    };
                    i = i + 3 * n;
                } else if first.is_some() {
                    total = total + 9;
                    i = i + 3;
                } else {
                    total = total + 3;
                    i = i + 1;
                }
            }
        }
    }
    total
}

/// How long the path and query of `url` from `start` on get when the query is encoded anew.
fn count_rewritten(url: &[u8], start: usize) -> (r: usize)
    requires
        start <= url.len() <= MAX_URL_LEN,
    ensures
        r == rewritten_len(url@, start as int),
        r <= 12 * url.len(),
{
    let mut i: usize = start;
    while i < url.len()
        invariant
            start <= i <= url.len() <= MAX_URL_LEN,
            rewritten_len(url@, start as int) == i - start + rewritten_len(url@, i as int),
        decreases url.len() - i,
    {
        if url[i] == 0x23 {
            return i - start;
        }
        if url[i] == 0x3f {
            return i - start + count_query(url, i + 1);
        }
        i = i + 1;
    }
    i - start
}

/// Whether `sign_request` can be asked to sign a request for `url` with `headers`.
pub fn can_sign(url: &str, headers: &[(String, String)]) -> (r: bool)
    ensures
        r == is_signable(url.spec_bytes(), owned_headers(headers@)),
{
    let bytes = url.as_bytes();
    if bytes.len() == 0 || bytes.len() > MAX_URL_LEN || find_refused_byte(bytes) {
        return true;
    }
    let slash: usize = find_delimiter(bytes, 0);
    assert(bytes@.skip(0) == bytes@);
    let asterisk = bytes.len() == 1 && bytes[0] == 0x2a;
    let bare = slash == bytes.len() && !asterisk;
    let scheme = 0 < slash && slash + 1 < bytes.len() && bytes[slash - 1] == 0x3a && bytes[slash]
        == 0x2f && bytes[slash + 1] == 0x2f;
    if bare && refused_authority(bytes) {
        return true;
    }
    if !bare && !asterisk && bytes[0] != 0x2f && !scheme {
        return true;
    }
    if headers.len() > MAX_HEADERS || count_names(headers) > MAX_HEADER_NAMES {
        return false;
    }
    if find_refused_header(headers) {
        return true;
    }
    if bare || ((bytes[0] == 0x2f || asterisk) && !find_host(headers)) {
        return false;
    }
    let start: usize = if scheme {
        find_delimiter(bytes, slash + 2)
    } else {
        slash
    };
    let rewritten: usize = count_rewritten(bytes, start);
    if start < bytes.len() && bytes[start] == 0x2f {
        rewritten <= MAX_URL_LEN
    } else {
        rewritten + 1 <= MAX_URL_LEN
    }
}

/// No byte is refused where each one is acceptable.
proof fn lemma_no_refused_byte(url: Seq<u8>)
    requires
        forall|i: int| 0 <= i < url.len() ==> !is_refused_byte(#[trigger] url[i]),
    ensures
        !has_refused_byte(url),
    decreases url.len(),
{
    if url.len() > 0 {
        assert forall|i: int| 0 <= i < url.skip(1).len() implies !is_refused_byte(
            #[trigger] url.skip(1)[i],
        ) by {
            assert(!is_refused_byte(url[i + 1]));
        }
        lemma_no_refused_byte(url.skip(1));
    }
}

/// The first delimiter is the one with none before it.
proof fn lemma_first_delimiter(url: Seq<u8>, at: int)
    requires
        0 <= at < url.len(),
        is_delimiter(url[at]),
        forall|i: int| 0 <= i < at ==> !is_delimiter(#[trigger] url[i]),
    ensures
        first_delimiter(url) == at,
    decreases at,
{
    if at > 0 {
        assert(!is_delimiter(url[0]));
        assert forall|i: int| 0 <= i < at - 1 implies !is_delimiter(#[trigger] url.skip(1)[i]) by {
            assert(!is_delimiter(url[i + 1]));
        }
        lemma_first_delimiter(url.skip(1), at - 1);
    }
}

/// A plain URL is never refused.
pub proof fn law_plain_url_is_not_refused(url: Seq<u8>)
    requires
        is_plain_url(url),
    ensures
        !is_refused_url(url),
{
    reveal_strlit("https://");
    reveal_strlit("http://");
    vstd::utf8::is_ascii_chars_encode_utf8("https://"@);
    vstd::utf8::is_ascii_chars_encode_utf8("http://"@);
    let scheme = if is_plain_behind(url, "https://".spec_bytes()) {
        "https://".spec_bytes()
    } else {
        "http://".spec_bytes()
    };
    let host = scheme.len() as int;
    let path = host + first_delimiter(url.skip(host));
    assert(is_plain_behind(url, scheme));
    assert forall|i: int| 0 <= i < host implies url[i] == scheme[i] by {
        assert(url.take(host)[i] == scheme[i]);
    }
    assert forall|i: int| 0 <= i < url.len() implies !is_refused_byte(#[trigger] url[i]) by {
        if i < host {
            assert(url[i] == scheme[i]);
        } else if i < path {
            assert(is_host_byte(url[i]));
        } else {
            assert(is_plain_byte(url[i]));
        }
    }
    lemma_no_refused_byte(url);
    lemma_first_delimiter(url, host - 2);
}

/// A header is taken exactly where its name has from 1 to 65535 characters, each of them a
/// letter, a digit or one of the signs that a name may hold, and its value has no control
/// character but the tabulator.
pub proof fn law_headers_that_are_taken(name: Seq<char>, value: Seq<char>)
    ensures
        !is_refused_header((name, value)) <==> {
            &&& 1 <= name.len() <= 65535
            &&& forall|i: int|
                0 <= i < name.len() ==> ('a' <= #[trigger] name[i] && name[i] <= 'z') || ('A'
                    <= name[i] && name[i] <= 'Z') || ('0' <= name[i] && name[i] <= '9')
                    || "!#$%&'*+-.^_`|~"@.contains(name[i]) || name[i] == '\u{212a}'
            &&& forall|i: int|
                0 <= i < value.len() ==> (' ' <= #[trigger] value[i] && value[i] != '\u{7f}')
                    || value[i] == '\t'
        },
{
    reveal_strlit("!#$%&'*+-.^_`|~");
    let signs = "!#$%&'*+-.^_`|~"@;
    assert forall|c: char| #[trigger] is_token(c) implies ('a' <= c && c <= 'z') || ('A' <= c && c
        <= 'Z') || ('0' <= c && c <= '9') || signs.contains(c) || c == '\u{212a}' by {
        assert(signs[0] == '!' && signs[1] == '#' && signs[2] == '$' && signs[3] == '%' && signs[4]
            == '&' && signs[5] == '\'' && signs[6] == '*' && signs[7] == '+' && signs[8] == '-'
            && signs[9] == '.' && signs[10] == '^' && signs[11] == '_' && signs[12] == '`'
            && signs[13] == '|' && signs[14] == '~');
    }
    if !is_refused_header((name, value)) {
        assert forall|i: int| 0 <= i < name.len() implies ('a' <= #[trigger] name[i] && name[i]
            <= 'z') || ('A' <= name[i] && name[i] <= 'Z') || ('0' <= name[i] && name[i] <= '9')
            || "!#$%&'*+-.^_`|~"@.contains(name[i]) || name[i] == '\u{212a}' by {
            assert(is_token(name[i]));
        }
        assert forall|i: int| 0 <= i < value.len() implies (' ' <= #[trigger] value[i]
            && value[i] != '\u{7f}') || value[i] == '\t' by {
            assert(!is_refused_in_value(value[i]));
        }
    }
}

/// One header that is refused is enough, wherever it stands.
pub proof fn law_one_refused_header(headers: Seq<(Seq<char>, Seq<char>)>, i: int)
    ensures
        0 <= i < headers.len() && is_refused_header(headers[i]) ==> has_refused_header(headers),
        (forall|k: int| 0 <= k < headers.len() ==> !is_refused_header(#[trigger] headers[k]))
            ==> !has_refused_header(headers),
{
}

/// A path and query grow by a bounded factor.
proof fn lemma_growth(url: Seq<u8>, at: int)
    requires
        0 <= at <= url.len(),
    ensures
        encoded_len(url, at, Place::Start) <= 11 * (url.len() - at),
        encoded_len(url, at, Place::Name) <= 11 * (url.len() - at),
        encoded_len(url, at, Place::Value) <= 11 * (url.len() - at),
        rewritten_len(url, at) <= 12 * (url.len() - at),
    decreases url.len() - at,
{
    if at < url.len() {
        lemma_growth(url, at + 1);
        let n = escaped_char(url, at) as int;
        if n > 0 {
            lemma_escaped_fits(url, at);
            lemma_growth(url, at + 3 * n);
        } else if octet(url, at) >= 0 {
            lemma_growth(url, at + 3);
        }
    }
}

/// A percent-encoded character lies within its query.
proof fn lemma_escaped_fits(url: Seq<u8>, at: int)
    requires
        0 <= at < url.len(),
    ensures
        escaped_char(url, at) <= 4,
        at + 3 * escaped_char(url, at) <= url.len(),
{
}

/// An ordinary request can be signed: for a full URL of a plain host and a path and query of
/// plain bytes, up to 5000 bytes in all, and up to 6549 headers, whatever they are.
pub proof fn law_ordinary_requests_can_be_signed(
    host: Seq<u8>,
    rest: Seq<u8>,
    headers: Seq<(Seq<char>, Seq<char>)>,
)
    requires
        host.len() > 0,
        forall|i: int|
            0 <= i < host.len() ==> (0x61 <= #[trigger] host[i] <= 0x7a) || (0x41 <= host[i]
                <= 0x5a) || (0x30 <= host[i] <= 0x39) || host[i] == 0x2d || host[i] == 0x2e,
        rest.len() > 0 ==> rest[0] == 0x2f || rest[0] == 0x3f,
        forall|i: int|
            0 <= i < rest.len() ==> (#[trigger] rest[i]) == 0x21 || (0x24 <= rest[i] <= 0x3b)
                || rest[i] == 0x3d || (0x3f <= rest[i] <= 0x5f) || (0x61 <= rest[i] <= 0x7a)
                || rest[i] == 0x7c || rest[i] == 0x7e,
        8 + host.len() + rest.len() <= 5000,
        headers.len() <= 6549,
    ensures
        is_signable("https://".spec_bytes() + host + rest, headers),
        is_plain_url("https://".spec_bytes() + host + rest),
{
    reveal_strlit("https://");
    vstd::utf8::is_ascii_chars_encode_utf8("https://"@);
    let scheme = "https://".spec_bytes();
    let url = scheme + host + rest;
    lemma_first_delimiter(url, 6);
    let path = url.skip(8);
    assert(path == host + rest);
    assert forall|i: int| 0 <= i < host.len() implies !is_delimiter(#[trigger] path[i]) by {
        assert(path[i] == host[i]);
    }
    if rest.len() > 0 {
        assert(path[host.len() as int] == rest[0]);
        lemma_first_delimiter(path, host.len() as int);
    } else {
        lemma_no_delimiter(path);
    }
    assert(url.take(8) == scheme);
    assert forall|i: int| 8 <= i < 8 + host.len() implies is_host_byte(#[trigger] url[i]) by {
        assert(url[i] == host[i - 8]);
    }
    assert forall|i: int| 8 + host.len() <= i < url.len() implies is_plain_byte(
        #[trigger] url[i],
    ) by {
        assert(url[i] == rest[i - 8 - host.len()]);
    }
    assert(is_plain_behind(url, scheme));
    law_plain_url_is_not_refused(url);
    lemma_growth(url, path_start(url));
    names_of(headers).lemma_cardinality_of_set();
}

/// Without a delimiter the first one is found at the end.
proof fn lemma_no_delimiter(url: Seq<u8>)
    requires
        forall|i: int| 0 <= i < url.len() ==> !is_delimiter(#[trigger] url[i]),
    ensures
        first_delimiter(url) == url.len(),
    decreases url.len(),
{
    if url.len() > 0 {
        assert(!is_delimiter(url[0]));
        assert forall|i: int| 0 <= i < url.skip(1).len() implies !is_delimiter(
            #[trigger] url.skip(1)[i],
        ) by {
            assert(!is_delimiter(url[i + 1]));
        }
        lemma_no_delimiter(url.skip(1));
    }
}

/// A bare path cannot be signed without a `host` header, nor a bare host name at all, unless
/// one of the headers is refused.
pub proof fn law_bare_urls_cannot_be_signed(
    url: Seq<u8>,
    headers: Seq<(Seq<char>, Seq<char>)>,
)
    requires
        0 < url.len() <= 65534,
        forall|k: int| 0 <= k < headers.len() ==> !is_refused_header(#[trigger] headers[k]),
    ensures
        url[0] == 0x2f && (forall|i: int|
            0 <= i < url.len() ==> (0x61 <= #[trigger] url[i] <= 0x7a) || (0x2d <= url[i] <= 0x39))
            && (forall|k: int|
            0 <= k < headers.len() ==> text::ascii_lowercase((#[trigger] headers[k]).0) != "host"@)
            ==> !is_signable(url, headers),
        (forall|i: int|
            0 <= i < url.len() ==> (0x61 <= #[trigger] url[i] <= 0x7a) || (0x30 <= url[i] <= 0x39)
                || url[i] == 0x2d || url[i] == 0x2e) ==> !is_signable(url, headers),
{
    if forall|i: int|
        0 <= i < url.len() ==> (0x61 <= #[trigger] url[i] <= 0x7a) || (0x2d <= url[i] <= 0x39) {
        assert forall|i: int| 0 <= i < url.len() implies !is_refused_byte(#[trigger] url[i]) by {}
        lemma_no_refused_byte(url);
        if url[0] == 0x2f {
            lemma_first_delimiter(url, 0);
        }
    }
    if forall|i: int|
        0 <= i < url.len() ==> (0x61 <= #[trigger] url[i] <= 0x7a) || (0x30 <= url[i] <= 0x39)
            || url[i] == 0x2d || url[i] == 0x2e {
        assert forall|i: int| 0 <= i < url.len() implies !is_delimiter(#[trigger] url[i]) by {}
        lemma_no_delimiter(url);
        assert forall|i: int| 0 <= i < url.len() implies is_authority_byte(#[trigger] url[i]) by {}
        lemma_count_none(url, 0x3a);
    }
}

/// What does not stand in a URL is counted as nothing.
proof fn lemma_count_none(url: Seq<u8>, b: u8)
    requires
        forall|i: int| 0 <= i < url.len() ==> (#[trigger] url[i]) != b,
    ensures
        count(url, b) == 0,
    decreases url.len(),
{
    if url.len() > 0 {
        lemma_count_none(url.drop_last(), b);
    }
}

} // verus!
