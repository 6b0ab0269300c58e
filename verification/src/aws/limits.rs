//! What the limits of the signer come to, on the bytes of a URL.

use vstd::prelude::*;
use vstd::string::*;

use crate::aws::signable;
use crate::aws::signable::Place;

verus! {

/// The signer reads URLs of up to 65534 bytes, holds up to 24576 headers of up to 6549 names,
/// and takes names of up to 65535 characters.
pub proof fn law_limits()
    ensures
        signable::MAX_URL_LEN == 65534,
        signable::MAX_HEADERS == 24576,
        signable::MAX_HEADER_NAMES == 6549,
        signable::MAX_NAME_LEN == 65535,
{
}

/// Whether `b` is none of `/`, `?` and `#`.
pub open spec fn is_inner(b: u8) -> bool {
    b != 0x2f && b != 0x3f && b != 0x23
}

/// The first delimiter of a URL is the first `/`, `?` or `#`, however far behind it stands; a
/// URL without one is searched to its end.
pub proof fn law_first_delimiter(before: Seq<u8>, rest: Seq<u8>)
    requires
        forall|i: int| 0 <= i < before.len() ==> is_inner(#[trigger] before[i]),
        rest.len() > 0 ==> rest[0] == 0x2f || rest[0] == 0x3f || rest[0] == 0x23,
    ensures
        signable::first_delimiter(before + rest) == before.len(),
    decreases before.len(),
{
    if before.len() == 0 {
        assert(before + rest == rest);
    } else {
        assert(is_inner(before[0]));
        assert forall|i: int| 0 <= i < before.skip(1).len() implies is_inner(
            #[trigger] before.skip(1)[i],
        ) by {
            assert(is_inner(before[i + 1]));
        }
        law_first_delimiter(before.skip(1), rest);
        assert((before + rest).skip(1) == before.skip(1) + rest);
    }
}

/// Whether `b` may stand in a URL: it is no control byte, no space, and neither `<` nor `>`.
pub open spec fn is_visible(b: u8) -> bool {
    b > 0x20 && b != 0x3c && b != 0x3e && b != 0x7f
}

/// A control byte, a space, `<` or `>` is refused wherever it stands before the first `#`, and
/// nothing else is. Behind a `#` nothing is looked at.
pub proof fn law_refused_bytes(before: Seq<u8>, rest: Seq<u8>)
    requires
        forall|i: int|
            0 <= i < before.len() ==> is_visible(#[trigger] before[i]) && before[i] != 0x23,
    ensures
        rest.len() == 0 || rest[0] == 0x23 ==> !signable::has_refused_byte(before + rest),
        rest.len() > 0 && !is_visible(rest[0]) ==> signable::has_refused_byte(before + rest),
    decreases before.len(),
{
    if before.len() == 0 {
        assert(before + rest == rest);
    } else {
        assert(is_visible(before[0]));
        assert forall|i: int| 0 <= i < before.skip(1).len() implies is_visible(
            #[trigger] before.skip(1)[i],
        ) && before.skip(1)[i] != 0x23 by {
            assert(is_visible(before[i + 1]));
        }
        law_refused_bytes(before.skip(1), rest);
        assert((before + rest).skip(1) == before.skip(1) + rest);
    }
}

/// A URL begins with a scheme exactly where `://` stands in it with no `/`, `?` or `#` before.
pub proof fn law_scheme(url: Seq<u8>, before: Seq<u8>, rest: Seq<u8>)
    ensures
        url == before + seq![0x3au8, 0x2f, 0x2f] + rest && (forall|i: int|
            0 <= i < before.len() ==> is_inner(#[trigger] before[i])) ==> signable::has_scheme(url),
        signable::has_scheme(url) ==> exists|n: int|
            {
                &&& 0 <= n && n + 3 <= url.len()
                &&& #[trigger] url.subrange(n, n + 3) == seq![0x3au8, 0x2f, 0x2f]
                &&& forall|i: int| 0 <= i < n ==> is_inner(#[trigger] url[i])
            },
{
    let colon = seq![0x3au8, 0x2f, 0x2f];
    if url == before + colon + rest && (forall|i: int|
        0 <= i < before.len() ==> is_inner(#[trigger] before[i])) {
        let first = before.push(0x3a);
        let second = seq![0x2fu8, 0x2f] + rest;
        assert(url == first + second);
        law_first_delimiter(first, second);
    }
    if signable::has_scheme(url) {
        lemma_inner_before(url);
        let n = signable::first_delimiter(url) - 1;
        assert(url.subrange(n, n + 3) == colon);
    }
}

/// No delimiter stands before the first one.
proof fn lemma_inner_before(url: Seq<u8>)
    ensures
        0 <= signable::first_delimiter(url) <= url.len(),
        forall|i: int| 0 <= i < signable::first_delimiter(url) ==> is_inner(#[trigger] url[i]),
        signable::first_delimiter(url) < url.len() ==> !is_inner(
            url[signable::first_delimiter(url)],
        ),
    decreases url.len(),
{
    if url.len() > 0 && !signable::is_delimiter(url[0]) {
        lemma_inner_before(url.skip(1));
        assert forall|i: int| 0 <= i < signable::first_delimiter(url) implies is_inner(
            #[trigger] url[i],
        ) by {
            if i > 0 {
                assert(is_inner(url.skip(1)[i - 1]));
            }
        }
    }
}

/// How often a byte stands in a text is counted over the whole of it.
pub proof fn law_count(a: Seq<u8>, b: Seq<u8>, byte: u8, other: u8)
    ensures
        signable::count(a + b, byte) == signable::count(a, byte) + signable::count(b, byte),
        signable::count(seq![byte], byte) == 1,
        byte != other ==> signable::count(seq![other], byte) == 0,
        signable::count(seq![], byte) == 0,
    decreases b.len(),
{
    reveal_with_fuel(signable::count, 2);
    if b.len() == 0 {
        assert(a + b == a);
    } else {
        law_count(a, b.drop_last(), byte, other);
        assert((a + b).drop_last() == a + b.drop_last());
    }
}

/// Where a byte stands twice, it is counted more than once.
proof fn lemma_twice(url: Seq<u8>, byte: u8)
    ensures
        signable::count(url, byte) > 0 <==> exists|i: int|
            0 <= i < url.len() && #[trigger] url[i] == byte,
        signable::count(url, byte) > 1 <==> exists|i: int, j: int|
            0 <= i < j < url.len() && #[trigger] url[i] == byte && #[trigger] url[j] == byte,
    decreases url.len(),
{
    if url.len() > 0 {
        let init = url.drop_last();
        let end = url.len() - 1;
        lemma_twice(init, byte);
        if exists|i: int| 0 <= i < init.len() && #[trigger] init[i] == byte {
            let i = choose|i: int| 0 <= i < init.len() && #[trigger] init[i] == byte;
            assert(url[i] == byte);
            assert(url[end] == url.last());
        }
        if exists|i: int, j: int|
            0 <= i < j < init.len() && #[trigger] init[i] == byte && #[trigger] init[j] == byte {
            let (i, j) = choose|i: int, j: int|
                0 <= i < j < init.len() && #[trigger] init[i] == byte && #[trigger] init[j] == byte;
            assert(url[i] == byte && url[j] == byte);
        }
        if exists|i: int| 0 <= i < url.len() && #[trigger] url[i] == byte {
            let i = choose|i: int| 0 <= i < url.len() && #[trigger] url[i] == byte;
            if i < end {
                assert(init[i] == byte);
            }
        }
        if exists|i: int, j: int|
            0 <= i < j < url.len() && #[trigger] url[i] == byte && #[trigger] url[j] == byte {
            let (i, j) = choose|i: int, j: int|
                0 <= i < j < url.len() && #[trigger] url[i] == byte && #[trigger] url[j] == byte;
            assert(init[i] == byte);
            if j < end {
                assert(init[j] == byte);
            }
        }
    }
}

/// An authority is refused for a byte that none holds, for nothing behind an `@`, for one kind
/// of square bracket without the other, and, where it has neither an `@` nor brackets, for a
/// percent sign or two colons; and for nothing else.
pub proof fn law_refused_authorities(url: Seq<u8>)
    ensures
        signable::is_refused_authority(url) <==> {
            ||| exists|i: int|
                0 <= i < url.len() && !((#[trigger] url[i]) == 0x21 || 0x24 <= url[i] <= 0x3b
                    || url[i] == 0x3d || 0x40 <= url[i] <= 0x5b || url[i] == 0x5d || url[i] == 0x5f
                    || 0x61 <= url[i] <= 0x7a || url[i] == 0x7e)
            ||| url.len() > 0 && url[url.len() - 1] == 0x40
            ||| url.contains(0x5b) && !url.contains(0x5d)
            ||| url.contains(0x5d) && !url.contains(0x5b)
            ||| !url.contains(0x40) && !url.contains(0x5d) && url.contains(0x25)
            ||| !url.contains(0x40) && !url.contains(0x5d) && exists|i: int, j: int|
                0 <= i < j < url.len() && #[trigger] url[i] == 0x3a && #[trigger] url[j] == 0x3a
        },
{
    lemma_twice(url, 0x3a);
    if exists|i: int|
        0 <= i < url.len() && !((#[trigger] url[i]) == 0x21 || 0x24 <= url[i] <= 0x3b || url[i]
            == 0x3d || 0x40 <= url[i] <= 0x5b || url[i] == 0x5d || url[i] == 0x5f || 0x61 <= url[i]
            <= 0x7a || url[i] == 0x7e) {
        let i = choose|i: int|
            0 <= i < url.len() && !((#[trigger] url[i]) == 0x21 || 0x24 <= url[i] <= 0x3b || url[i]
                == 0x3d || 0x40 <= url[i] <= 0x5b || url[i] == 0x5d || url[i] == 0x5f || 0x61
                <= url[i] <= 0x7a || url[i] == 0x7e);
        assert(!signable::is_authority_byte(url[i]));
    }
}

/// A URL is refused where it is empty or too long, for a byte that no URL holds, as an
/// authority that is none, and where it has neither a scheme nor begins with `/`, unless it is
/// `*`; and for nothing else.
pub proof fn law_refused_urls(url: Seq<u8>)
    ensures
        url.len() == 0 ==> signable::is_refused_url(url),
        url.len() > 65534 ==> signable::is_refused_url(url),
        signable::has_refused_byte(url) ==> signable::is_refused_url(url),
        0 < url.len() <= 65534 && !signable::has_refused_byte(url) ==> {
            &&& url == seq![0x2au8] ==> !signable::is_refused_url(url)
            &&& url[0] == 0x2f ==> !signable::is_refused_url(url)
            &&& signable::has_scheme(url) ==> !signable::is_refused_url(url)
            &&& url != seq![0x2au8] && (forall|i: int|
                0 <= i < url.len() ==> is_inner(#[trigger] url[i])) ==> signable::is_refused_url(
                url,
            ) == signable::is_refused_authority(url)
            &&& url[0] != 0x2f && !signable::has_scheme(url) && (exists|i: int|
                0 <= i < url.len() && !is_inner(#[trigger] url[i])) ==> signable::is_refused_url(
                url,
            )
        },
{
    lemma_inner_before(url);
    lemma_asterisk(url);
    if forall|i: int| 0 <= i < url.len() ==> is_inner(#[trigger] url[i]) {
        law_first_delimiter(url, seq![]);
        assert(url + Seq::<u8>::empty() == url);
    }
}

/// `*` is that one byte.
proof fn lemma_asterisk(url: Seq<u8>)
    ensures
        signable::is_asterisk(url) <==> url == seq![0x2au8],
{
    if signable::is_asterisk(url) {
        assert(url == seq![0x2au8]);
    }
}

/// A request with a URL that is read can be signed exactly where there are not too many
/// headers, and a header is refused or the URL is one that the signer can put together again:
/// no bare authority, no path without a `host` header, and not too long once its query is
/// encoded anew. A URL that is not read does no harm, whatever the headers.
pub proof fn law_signable(url: Seq<u8>, headers: Seq<(Seq<char>, Seq<char>)>)
    ensures
        signable::is_refused_url(url) ==> signable::is_signable(url, headers),
        !signable::is_refused_url(url) ==> {
            &&& headers.len() > 24576 ==> !signable::is_signable(url, headers)
            &&& signable::names_of(headers).to_set().len() > 6549 ==> !signable::is_signable(
                url,
                headers,
            )
            &&& headers.len() <= 24576 && signable::names_of(headers).to_set().len() <= 6549 ==> {
                &&& signable::has_refused_header(headers) ==> signable::is_signable(url, headers)
                &&& !signable::has_refused_header(headers) ==> {
                    &&& url != seq![0x2au8] && (forall|i: int|
                        0 <= i < url.len() ==> is_inner(#[trigger] url[i]))
                        ==> !signable::is_signable(url, headers)
                    &&& (url[0] == 0x2f || url == seq![0x2au8]) && !signable::names_host(headers)
                        ==> !signable::is_signable(url, headers)
                    &&& (url[0] == 0x2f || url == seq![0x2au8]) && signable::names_host(headers)
                        ==> signable::is_signable(url, headers) == (signable::path_and_query_len(
                        url,
                    ) <= 65534)
                    &&& signable::has_scheme(url) ==> signable::is_signable(url, headers) == (
                    signable::path_and_query_len(url) <= 65534)
                }
            }
        },
{
    lemma_inner_before(url);
    lemma_asterisk(url);
    if forall|i: int| 0 <= i < url.len() ==> is_inner(#[trigger] url[i]) {
        law_first_delimiter(url, seq![]);
        assert(url + Seq::<u8>::empty() == url);
    }
}

/// A `host` header is one by the name of `host`, whatever the case of its letters and wherever
/// it stands, and names are read one for one.
pub proof fn law_host_header(headers: Seq<(Seq<char>, Seq<char>)>, i: int)
    ensures
        0 <= i < headers.len() && crate::text::ascii_lowercase(headers[i].0) == "host"@
            ==> signable::names_host(headers),
        (forall|k: int|
            0 <= k < headers.len() ==> crate::text::ascii_lowercase((#[trigger] headers[k]).0)
                != "host"@) ==> !signable::names_host(headers),
        signable::names_of(headers).len() == headers.len(),
        0 <= i < headers.len() ==> signable::names_of(headers)[i] == headers[i].0,
{
}

/// The path of a URL with a scheme begins behind its authority; that of any other URL at its
/// first delimiter.
pub proof fn law_path_start(before: Seq<u8>, authority: Seq<u8>, rest: Seq<u8>)
    requires
        forall|i: int| 0 <= i < before.len() ==> is_inner(#[trigger] before[i]),
        forall|i: int| 0 <= i < authority.len() ==> is_inner(#[trigger] authority[i]),
        rest.len() > 0 ==> rest[0] == 0x2f || rest[0] == 0x3f || rest[0] == 0x23,
    ensures
        signable::path_start(before + seq![0x3au8, 0x2f, 0x2f] + authority + rest) == before.len()
            + 3 + authority.len(),
        !signable::has_scheme(before + rest) ==> signable::path_start(before + rest)
            == before.len(),
{
    let colon = seq![0x3au8, 0x2f, 0x2f];
    let url = before + colon + authority + rest;
    let first = before.push(0x3a);
    let second = seq![0x2fu8, 0x2f] + authority + rest;
    assert(url == first + second);
    law_first_delimiter(first, second);
    assert(url.skip(before.len() as int + 3) == authority + rest);
    law_first_delimiter(authority, rest);
    law_first_delimiter(before, rest);
}

/// A path counts byte for byte, up to its query; a `#` and what stands behind it counts
/// nothing.
pub proof fn law_path_counts_as_it_is(before: Seq<u8>, path: Seq<u8>, rest: Seq<u8>)
    requires
        forall|i: int| 0 <= i < path.len() ==> (#[trigger] path[i]) != 0x3f && path[i] != 0x23,
    ensures
        rest.len() == 0 || rest[0] == 0x23 ==> signable::rewritten_len(
            before + path + rest,
            before.len() as int,
        ) == path.len(),
        rest.len() > 0 && rest[0] == 0x3f ==> signable::rewritten_len(
            before + path + rest,
            before.len() as int,
        ) == path.len() + signable::encoded_len(rest.skip(1), 0, Place::Start),
    decreases path.len(),
{
    let url = before + path + rest;
    if path.len() == 0 {
        if rest.len() > 0 {
            assert(url[before.len() as int] == rest[0]);
            let query = rest.skip(1);
            assert(url == before.push(rest[0]) + query);
            lemma_shift(before.push(rest[0]), query, 0, Place::Start);
        }
    } else {
        assert(url[before.len() as int] == path[0]);
        let next = before.push(path[0]);
        assert(url == next + path.skip(1) + rest);
        assert forall|i: int| 0 <= i < path.skip(1).len() implies (#[trigger] path.skip(1)[i])
            != 0x3f && path.skip(1)[i] != 0x23 by {
            assert(path[i + 1] != 0x3f);
        }
        law_path_counts_as_it_is(next, path.skip(1), rest);
    }
}

/// The length of path and query is counted from where the path begins, with one byte more for
/// a path that does not begin with `/`.
pub proof fn law_path_and_query(url: Seq<u8>)
    ensures
        ({
            let start = signable::path_start(url);
            &&& 0 <= start < url.len() && url[start] == 0x2f ==> signable::path_and_query_len(url)
                == signable::rewritten_len(url, start)
            &&& start == url.len() || 0 <= start < url.len() && url[start] != 0x2f
                ==> signable::path_and_query_len(url) == signable::rewritten_len(url, start) + 1
        }),
{
}

/// What stands at a place is the same whatever stands before it.
proof fn lemma_shift_char(before: Seq<u8>, query: Seq<u8>, at: int)
    requires
        0 <= at,
    ensures
        signable::octet(before + query, before.len() + at) == signable::octet(query, at),
        signable::escaped_char(before + query, before.len() + at) == signable::escaped_char(
            query,
            at,
        ),
        signable::escaped_len(before + query, before.len() + at) == signable::escaped_len(
            query,
            at,
        ),
{
    let url = before + query;
    let n = before.len() as int;
    assert forall|k: int| 0 <= k implies #[trigger] signable::octet(url, n + k) == signable::octet(
        query,
        k,
    ) by {
        if k + 3 <= query.len() {
            assert(url[n + k] == query[k]);
            assert(url[n + k + 1] == query[k + 1]);
            assert(url[n + k + 2] == query[k + 2]);
        }
    }
    assert(signable::octet(url, n + at) == signable::octet(query, at));
    assert(signable::octet(url, n + (at + 3)) == signable::octet(query, at + 3));
    assert(signable::octet(url, n + (at + 6)) == signable::octet(query, at + 6));
    assert(signable::octet(url, n + (at + 9)) == signable::octet(query, at + 9));
}

/// A query counts the same whatever stands before it.
proof fn lemma_shift(before: Seq<u8>, query: Seq<u8>, at: int, place: Place)
    requires
        0 <= at <= query.len(),
    ensures
        signable::encoded_len(before + query, before.len() + at, place) == signable::encoded_len(
            query,
            at,
            place,
        ),
    decreases query.len() - at,
{
    if at < query.len() {
        let n = signable::escaped_char(query, at) as int;
        assert((before + query)[before.len() + at] == query[at]);
        lemma_shift_char(before, query, at);
        lemma_shift(before, query, at + 1, Place::Start);
        lemma_shift(before, query, at + 1, Place::Name);
        lemma_shift(before, query, at + 1, Place::Value);
        if n > 0 {
            assert(at + 3 * n <= query.len());
            lemma_shift(before, query, at + 3 * n, Place::Name);
            lemma_shift(before, query, at + 3 * n, Place::Value);
        } else if signable::octet(query, at) >= 0 {
            lemma_shift(before, query, at + 3, Place::Name);
            lemma_shift(before, query, at + 3, Place::Value);
        }
    }
}

/// No percent-encoded character reaches over an `&`, `=` or `#`.
proof fn lemma_boundary(query: Seq<u8>, rest: Seq<u8>, at: int)
    requires
        0 <= at < query.len(),
        rest.len() > 0,
        rest[0] == 0x26 || rest[0] == 0x3d || rest[0] == 0x23,
    ensures
        signable::octet(query + rest, at) == signable::octet(query, at),
        signable::escaped_char(query + rest, at) == signable::escaped_char(query, at),
        signable::escaped_len(query + rest, at) == signable::escaped_len(query, at),
{
    let all = query + rest;
    assert(all[query.len() as int] == rest[0]);
    assert forall|k: int| 0 <= k <= query.len() implies #[trigger] signable::octet(all, k)
        == signable::octet(query, k) by {
        if k + 3 <= query.len() {
            assert(all[k] == query[k] && all[k + 1] == query[k + 1] && all[k + 2] == query[k + 2]);
        }
    }
    assert(signable::octet(all, at) == signable::octet(query, at));
    if signable::octet(all, at) >= 0 {
        assert(signable::octet(all, at + 3) == signable::octet(query, at + 3));
        if signable::octet(all, at + 3) >= 0 {
            assert(signable::octet(all, at + 6) == signable::octet(query, at + 6));
            if signable::octet(all, at + 6) >= 0 {
                assert(signable::octet(all, at + 9) == signable::octet(query, at + 9));
            }
        }
    }
}

/// A query is counted up to an `&` or `#`, and from an `&` on anew.
proof fn lemma_parts(query: Seq<u8>, rest: Seq<u8>, at: int, place: Place)
    requires
        0 <= at <= query.len(),
        forall|i: int| 0 <= i < query.len() ==> (#[trigger] query[i]) != 0x23,
        rest.len() > 0,
        rest[0] == 0x26 || rest[0] == 0x23,
    ensures
        signable::encoded_len(query + rest, at, place) == signable::encoded_len(query, at, place)
            + (if rest[0] == 0x26 {
            signable::encoded_len(rest.skip(1), 0, Place::Start)
        } else {
            0
        }),
    decreases query.len() - at,
{
    let all = query + rest;
    if at < query.len() {
        let n = signable::escaped_char(query, at) as int;
        assert(all[at] == query[at]);
        lemma_boundary(query, rest, at);
        lemma_parts(query, rest, at + 1, Place::Start);
        lemma_parts(query, rest, at + 1, Place::Name);
        lemma_parts(query, rest, at + 1, Place::Value);
        if n > 0 {
            assert(at + 3 * n <= query.len());
            lemma_parts(query, rest, at + 3 * n, Place::Name);
            lemma_parts(query, rest, at + 3 * n, Place::Value);
        } else if signable::octet(query, at) >= 0 {
            lemma_parts(query, rest, at + 3, Place::Name);
            lemma_parts(query, rest, at + 3, Place::Value);
        }
    } else {
        assert(all[at] == rest[0]);
        assert(all == query.push(rest[0]) + rest.skip(1));
        lemma_shift(query.push(rest[0]), rest.skip(1), 0, Place::Start);
    }
}

/// The parameters of a query count each on its own, and a `#` ends them.
pub proof fn law_parameters_count_each(query: Seq<u8>, rest: Seq<u8>)
    requires
        forall|i: int| 0 <= i < query.len() ==> (#[trigger] query[i]) != 0x23,
    ensures
        signable::encoded_len(query + seq![0x26u8] + rest, 0, Place::Start)
            == signable::encoded_len(query, 0, Place::Start) + signable::encoded_len(
            rest,
            0,
            Place::Start,
        ),
        signable::encoded_len(query + seq![0x23u8] + rest, 0, Place::Start)
            == signable::encoded_len(query, 0, Place::Start),
        signable::encoded_len(seq![], 0, Place::Start) == 0,
{
    let more = seq![0x26u8] + rest;
    let end = seq![0x23u8] + rest;
    assert(query + seq![0x26u8] + rest == query + more);
    assert(query + seq![0x23u8] + rest == query + end);
    assert(more.skip(1) == rest);
    lemma_parts(query, more, 0, Place::Start);
    lemma_parts(query, end, 0, Place::Start);
}

/// The name of a parameter is counted up to its `=`.
proof fn lemma_name(name: Seq<u8>, rest: Seq<u8>, at: int)
    requires
        0 <= at <= name.len(),
        forall|i: int|
            0 <= i < name.len() ==> (#[trigger] name[i]) != 0x23 && name[i] != 0x26 && name[i]
                != 0x3d,
        rest.len() > 0,
        rest[0] == 0x3d,
    ensures
        signable::encoded_len(name + rest, at, Place::Name) == signable::encoded_len(
            name,
            at,
            Place::Name,
        ) + signable::encoded_len(rest.skip(1), 0, Place::Value),
    decreases name.len() - at,
{
    let all = name + rest;
    if at < name.len() {
        let n = signable::escaped_char(name, at) as int;
        assert(all[at] == name[at]);
        lemma_boundary(name, rest, at);
        lemma_name(name, rest, at + 1);
        if n > 0 {
            assert(at + 3 * n <= name.len());
            lemma_name(name, rest, at + 3 * n);
        } else if signable::octet(name, at) >= 0 {
            lemma_name(name, rest, at + 3);
        }
    } else {
        assert(all[at] == rest[0]);
        assert(all == name.push(rest[0]) + rest.skip(1));
        lemma_shift(name.push(rest[0]), rest.skip(1), 0, Place::Value);
    }
}

/// A parameter takes two bytes, a `?` or `&` and an `=`, and its name and its value, whether or
/// not there is an `=` in it.
pub proof fn law_parameter(name: Seq<u8>, value: Seq<u8>)
    requires
        forall|i: int|
            0 <= i < name.len() ==> (#[trigger] name[i]) != 0x23 && name[i] != 0x26 && name[i]
                != 0x3d,
    ensures
        signable::encoded_len(name + seq![0x3du8] + value, 0, Place::Start) == 2
            + signable::encoded_len(name, 0, Place::Name) + signable::encoded_len(
            value,
            0,
            Place::Value,
        ),
        name.len() > 0 ==> signable::encoded_len(name, 0, Place::Start) == 2
            + signable::encoded_len(name, 0, Place::Name),
{
    let rest = seq![0x3du8] + value;
    let all = name + rest;
    assert(name + seq![0x3du8] + value == all);
    assert(rest.skip(1) == value);
    lemma_name(name, rest, 0);
    assert(all[0] == (if name.len() > 0 {
        name[0]
    } else {
        0x3du8
    }));
}

/// In the name or the value of a parameter a letter, a digit, `-`, `.`, `_` and `~` count once,
/// percent-encoded or not. Any other byte counts three times, also where it stands
/// percent-encoded as part of a character in UTF-8; as part of none it counts nine times.
pub proof fn law_bytes_of_a_parameter(query: Seq<u8>, at: int, place: Place)
    requires
        0 <= at < query.len(),
        query[at] != 0x26,
        query[at] != 0x23,
        place == Place::Value || place == Place::Name && query[at] != 0x3d,
    ensures
        ({
            let b = query[at];
            let o = signable::octet(query, at);
            let n = signable::escaped_char(query, at);
            let is_unreserved = |v: int|
                0x61 <= v <= 0x7a || 0x41 <= v <= 0x5a || 0x30 <= v <= 0x39 || v == 0x2d || v
                    == 0x2e || v == 0x5f || v == 0x7e;
            let len = signable::encoded_len(query, at, place);
            &&& is_unreserved(b as int) ==> len == 1 + signable::encoded_len(query, at + 1, place)
            &&& !is_unreserved(b as int) && o < 0 ==> len == 3 + signable::encoded_len(
                query,
                at + 1,
                place,
            )
            &&& o >= 0 && is_unreserved(o) ==> len == 1 + signable::encoded_len(
                query,
                at + 3,
                place,
            )
            &&& o >= 0 && !is_unreserved(o) && n > 0 ==> len == 3 * n + signable::encoded_len(
                query,
                at + 3 * n,
                place,
            )
            &&& o >= 0 && n == 0 ==> len == 9 + signable::encoded_len(query, at + 3, place)
        }),
{
}

/// A byte stands percent-encoded where a percent sign is followed by the two hexadecimal digits
/// of it, in either case.
pub proof fn law_octets(before: Seq<u8>, high: u8, low: u8, rest: Seq<u8>)
    ensures
        ({
            let query = before + seq![0x25u8, high, low] + rest;
            let digit = |b: u8|
                if 0x30 <= b <= 0x39 {
                    b - 0x30
                } else if 0x41 <= b <= 0x46 {
                    b - 0x41 + 10
                } else if 0x61 <= b <= 0x66 {
                    b - 0x61 + 10
                } else {
                    -1int
                };
            &&& digit(high) >= 0 && digit(low) >= 0 ==> signable::octet(query, before.len() as int)
                == 16 * digit(high) + digit(low)
            &&& digit(high) < 0 || digit(low) < 0 ==> signable::octet(query, before.len() as int)
                == -1
        }),
        signable::octet(before + rest, before.len() as int) >= 0 ==> rest.len() >= 3 && rest[0]
            == 0x25,
{
    let query = before + seq![0x25u8, high, low] + rest;
    let n = before.len() as int;
    assert(query[n] == 0x25 && query[n + 1] == high && query[n + 2] == low);
}

/// Percent-encoded bytes are a character where they are the shortest encoding in UTF-8 of a
/// number up to 0x10ffff that is no surrogate.
pub proof fn law_escaped_characters(query: Seq<u8>, at: int)
    ensures
        ({
            let a = signable::octet(query, at);
            let b = signable::octet(query, at + 3);
            let c = signable::octet(query, at + 6);
            let d = signable::octet(query, at + 9);
            let n = signable::escaped_char(query, at);
            let two = (a - 0xc0) * 64 + (b - 0x80);
            let three = (a - 0xe0) * 4096 + (b - 0x80) * 64 + (c - 0x80);
            let four = (a - 0xf0) * 262144 + (b - 0x80) * 4096 + (c - 0x80) * 64 + (d - 0x80);
            &&& n == 1 <==> 0 <= a < 0x80
            &&& n == 2 <==> 0xc0 <= a < 0xe0 && 0x80 <= b < 0xc0 && 0x80 <= two
            &&& n == 3 <==> 0xe0 <= a < 0xf0 && 0x80 <= b < 0xc0 && 0x80 <= c < 0xc0 && 0x800
                <= three && !(0xd800 <= three < 0xe000)
            &&& n == 4 <==> 0xf0 <= a < 0xf8 && 0x80 <= b < 0xc0 && 0x80 <= c < 0xc0 && 0x80 <= d
                < 0xc0 && 0x10000 <= four <= 0x10ffff
            &&& n <= 4
        }),
{
}

/// A full URL without a query can be signed up to its greatest length, with headers that are
/// not too many.
pub proof fn law_long_paths_can_be_signed(
    host: Seq<u8>,
    path: Seq<u8>,
    headers: Seq<(Seq<char>, Seq<char>)>,
)
    requires
        forall|i: int| 0 <= i < host.len() ==> is_inner(#[trigger] host[i]),
        path.len() > 0,
        path[0] == 0x2f,
        forall|i: int| 0 <= i < path.len() ==> (#[trigger] path[i]) != 0x3f && path[i] != 0x23,
        8 + host.len() + path.len() <= 65534,
        headers.len() <= 6549,
    ensures
        signable::is_signable("https://".spec_bytes() + host + path, headers),
{
    reveal_strlit("https://");
    vstd::utf8::is_ascii_chars_encode_utf8("https://"@);
    let scheme = "https://".spec_bytes();
    let url = scheme + host + path;
    let before = seq![0x68u8, 0x74, 0x74, 0x70, 0x73];
    let colon = seq![0x3au8, 0x2f, 0x2f];
    assert(scheme == before + colon);
    assert(url == before + colon + host + path);
    assert(url == before + colon + (host + path));
    law_scheme(url, before, host + path);
    law_path_start(before, host, path);
    let start = scheme + host;
    assert(url == start + path + Seq::<u8>::empty());
    law_path_counts_as_it_is(start, path, seq![]);
    assert(url[start.len() as int] == path[0]);
    signable::names_of(headers).lemma_cardinality_of_set();
    assert(url[0] == 0x68);
}

} // verus!
