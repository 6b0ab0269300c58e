//! The table from host prefix to SigV4 service name, and the region in a host name.
//!
//! The service names that the signature scheme expects do not follow from the
//! host names (`bedrock-runtime` signs as `bedrock`, `email` as `ses`), so they
//! are listed by hand. A service that is not listed can be given explicitly in
//! the route's configuration.

use vstd::prelude::*;

use crate::text;

verus! {

/// Rows of host prefix and service name. The first row that matches wins.
pub const AWS_HOST_TO_SERVICE: [(&'static str, &'static str); 15] = [
    ("bedrock", "bedrock"),
    ("bedrock-runtime", "bedrock"),
    ("bedrock-agent", "bedrock"),
    ("bedrock-agent-runtime", "bedrock"),
    ("dynamodb", "dynamodb"),
    ("s3", "s3"),
    ("lambda", "lambda"),
    ("sqs", "sqs"),
    ("sns", "sns"),
    ("logs", "logs"),
    ("execute-api", "execute-api"),
    ("sts", "sts"),
    ("iam", "iam"),
    ("email", "ses"),
    ("ses", "ses"),
];

/// The service of the first row of `table` from `from` on whose prefix is `prefix`.
pub open spec fn first_match(
    table: Seq<(&'static str, &'static str)>,
    from: int,
    prefix: Seq<char>,
) -> Option<Seq<char>>
    decreases table.len() - from,
{
    if 0 <= from < table.len() {
        if table[from].0@ == prefix {
            Some(table[from].1@)
        } else {
            first_match(table, from + 1, prefix)
        }
    } else {
        None
    }
}

/// The service name of `host`: that of the table's row for the first dotted segment.
pub open spec fn service_of(host: Seq<char>) -> Option<Seq<char>> {
    first_match(AWS_HOST_TO_SERVICE@, 0, text::split(host, '.')[0])
}

/// A character that a region's name may hold.
pub open spec fn is_region_char(c: char) -> bool {
    ||| 'a' <= c && c <= 'z'
    ||| '0' <= c && c <= '9'
    ||| c == '-'
}

/// The shape of a region's name: lower case letters, digits and hyphens only, at
/// least one hyphen, and a digit at the end.
pub open spec fn is_region_shaped(s: Seq<char>) -> bool {
    &&& s.len() > 0
    &&& forall|i: int| 0 <= i < s.len() ==> is_region_char(#[trigger] s[i])
    &&& s.contains('-')
    &&& '0' <= s.last() && s.last() <= '9'
}

/// The region in `host`: the second dotted segment of `<service>.<region>.amazonaws.com`,
/// where it has a region's shape. A host of any other form has none.
pub open spec fn region_of(host: Seq<char>) -> Option<Seq<char>> {
    let segments = text::split(host, '.');
    if segments.len() == 4 && segments[2] == "amazonaws"@ && segments[3] == "com"@
        && is_region_shaped(segments[1]) {
        Some(segments[1])
    } else {
        None
    }
}

/// Looks up the SigV4 service name for an AWS host name by its first dotted
/// segment. `None` where no row of the table has that prefix.
#[must_use]
pub fn lookup_service(host: &str) -> (r: Option<&'static str>)
    ensures
        match r {
            Some(service) => service_of(host@) == Some(service@),
            None => service_of(host@) is None,
        },
{
    let v = text::chars_of(host);
    let end: usize = text::find_from(&v, 0, '.');
    proof {
        assert(v@.skip(0) == v@);
        text::lemma_split_front(host@, '.');
    }
    let prefix = host.substring_char(0, end);
    let table = AWS_HOST_TO_SERVICE;
    for i in 0..table.len()
        invariant
            table@ == AWS_HOST_TO_SERVICE@,
            prefix@ == text::split(host@, '.')[0],
            service_of(host@) == first_match(table@, i as int, prefix@),
    {
        if text::same_text(table[i].0, prefix) {
            return Some(table[i].1);
        }
    }
    None
}

/// Whether `v` from `from` to `to` has a region's shape.
fn region_shaped(v: &Vec<char>, from: usize, to: usize) -> (r: bool)
    requires
        from <= to <= v.len(),
    ensures
        r == is_region_shaped(v@.subrange(from as int, to as int)),
{
    let ghost s = v@.subrange(from as int, to as int);
    if from == to {
        return false;
    }
    let mut hyphen: bool = false;
    let mut i: usize = from;
    while i < to
        invariant
            from <= i <= to <= v.len(),
            s == v@.subrange(from as int, to as int),
            forall|k: int| 0 <= k < i - from ==> is_region_char(#[trigger] s[k]),
            hyphen <==> exists|k: int| 0 <= k < i - from && s[k] == '-',
        decreases to - i,
    {
        let c = v[i];
        assert(s[i - from] == c);
        if !(('a' <= c && c <= 'z') || ('0' <= c && c <= '9') || c == '-') {
            assert(!is_region_char(s[i - from]));
            return false;
        }
        if c == '-' {
            hyphen = true;
        }
        i += 1;
    }
    let last = v[to - 1];
    assert(s.last() == last);
    hyphen && '0' <= last && last <= '9'
}

/// What follows the region is `amazonaws.com` exactly where it has these two segments.
proof fn lemma_domain(rest: Seq<char>)
    ensures
        rest == "amazonaws.com"@ <==> text::split(rest, '.') == seq!["amazonaws"@, "com"@],
{
    reveal_strlit("amazonaws.com");
    reveal_strlit("amazonaws");
    reveal_strlit("com");
    assert("amazonaws.com"@ == "amazonaws"@ + seq!['.'] + "com"@);
    text::lemma_piece_before("amazonaws"@, '.', "com"@);
    text::lemma_piece_before("com"@, '.', seq![]);
    assert(text::split("amazonaws.com"@, '.') == seq!["amazonaws"@, "com"@]);
    text::lemma_split_front(rest, '.');
    let i = text::find_char(rest, '.');
    if text::split(rest, '.') == seq!["amazonaws"@, "com"@] {
        text::lemma_split_front(rest.skip(i + 1), '.');
        text::lemma_find_char(rest, '.');
        assert(text::split(rest, '.') == seq![rest.take(i)] + text::split(rest.skip(i + 1), '.'));
        assert(rest.skip(i + 1) == "com"@);
        assert(rest == rest.take(i) + seq!['.'] + rest.skip(i + 1));
        assert(rest.take(i) == seq!["amazonaws"@, "com"@][0]);
    }
}

/// Extracts the AWS region from a host name of the form
/// `<service>.<region>.amazonaws.com`. `None` where the host is not of that form, or what
/// stands in the region's place does not look like a region.
#[must_use]
pub fn lookup_region(host: &str) -> (r: Option<String>)
    ensures
        match r {
            Some(region) => region_of(host@) == Some(region@),
            None => region_of(host@) is None,
        },
{
    let v = text::chars_of(host);
    let dot: usize = text::find_from(&v, 0, '.');
    proof {
        assert(v@.skip(0) == v@);
        text::lemma_split_front(host@, '.');
    }
    if dot == v.len() {
        return None;
    }
    let end: usize = text::find_from(&v, dot + 1, '.');
    let ghost after = host@.skip(dot + 1);
    proof {
        text::lemma_split_front(after, '.');
        assert(text::split(host@, '.') == seq![host@.take(dot as int)] + text::split(after, '.'));
        assert(after.take(end - dot - 1) == host@.subrange(dot + 1, end as int));
    }
    if end == v.len() {
        return None;
    }
    let rest = host.substring_char(end + 1, v.len());
    proof {
        assert(after.skip(end - dot) == rest@);
        assert(text::split(after, '.') == seq![after.take(end - dot - 1)] + text::split(
            rest@,
            '.',
        ));
        let segments = text::split(host@, '.');
        lemma_domain(rest@);
        assert(segments.skip(2) == text::split(rest@, '.'));
        if segments.len() == 4 && segments[2] == "amazonaws"@ && segments[3] == "com"@ {
            assert(segments.skip(2) == seq!["amazonaws"@, "com"@]);
        }
        if segments.skip(2) == seq!["amazonaws"@, "com"@] {
            assert(segments[2] == segments.skip(2)[0]);
            assert(segments[3] == segments.skip(2)[1]);
        }
    }
    if text::same_text(rest, "amazonaws.com") && region_shaped(&v, dot + 1, end) {
        Some(host.substring_char(dot + 1, end).to_owned())
    } else {
        None
    }
}

/// A host is looked up by its first dotted segment alone: whatever follows the
/// first dot changes nothing.
pub proof fn law_service_by_first_segment(prefix: Seq<char>, rest: Seq<char>)
    requires
        !prefix.contains('.'),
    ensures
        service_of(prefix) == first_match(AWS_HOST_TO_SERVICE@, 0, prefix),
        service_of(prefix + seq!['.'] + rest) == service_of(prefix),
{
    text::lemma_piece_before(prefix, '.', rest);
}

/// Every row of the table is reached: a host that begins with the row's prefix, and
/// a dot after it, has the row's service. No earlier row hides a later one.
pub proof fn law_every_row_is_reached(row: int, rest: Seq<char>)
    requires
        0 <= row < AWS_HOST_TO_SERVICE@.len(),
    ensures
        service_of(AWS_HOST_TO_SERVICE@[row].0@ + seq!['.'] + rest) == Some(
            AWS_HOST_TO_SERVICE@[row].1@,
        ),
{
    let table = AWS_HOST_TO_SERVICE@;
    lemma_prefixes_differ();
    law_service_by_first_segment(table[row].0@, rest);
    lemma_first_match_is(table, 0, row);
}

/// The first row whose prefix is that of `row` is `row`, where no row between has it.
proof fn lemma_first_match_is(table: Seq<(&'static str, &'static str)>, from: int, row: int)
    requires
        0 <= from <= row < table.len(),
        forall|i: int| from <= i < row ==> (#[trigger] table[i]).0@ != table[row].0@,
    ensures
        first_match(table, from, table[row].0@) == Some(table[row].1@),
    decreases row - from,
{
    if from < row {
        lemma_first_match_is(table, from + 1, row);
    }
}

/// The prefixes of the table are different texts without dots.
proof fn lemma_prefixes_differ()
    ensures
        forall|i: int, j: int|
            #![trigger AWS_HOST_TO_SERVICE@[i], AWS_HOST_TO_SERVICE@[j]]
            0 <= i < j < AWS_HOST_TO_SERVICE@.len() ==> AWS_HOST_TO_SERVICE@[i].0@
                != AWS_HOST_TO_SERVICE@[j].0@,
        forall|i: int|
            #![trigger AWS_HOST_TO_SERVICE@[i]]
            0 <= i < AWS_HOST_TO_SERVICE@.len() ==> !AWS_HOST_TO_SERVICE@[i].0@.contains('.'),
{
    reveal_strlit("bedrock");
    reveal_strlit("bedrock-runtime");
    reveal_strlit("bedrock-agent");
    reveal_strlit("bedrock-agent-runtime");
    reveal_strlit("dynamodb");
    reveal_strlit("s3");
    reveal_strlit("lambda");
    reveal_strlit("sqs");
    reveal_strlit("sns");
    reveal_strlit("logs");
    reveal_strlit("execute-api");
    reveal_strlit("sts");
    reveal_strlit("iam");
    reveal_strlit("email");
    reveal_strlit("ses");
    let table = AWS_HOST_TO_SERVICE@;
    assert forall|i: int, j: int| #![trigger table[i], table[j]] 0 <= i < j < table.len() implies
        table[i].0@ != table[j].0@ by {
        // Only the prefixes of three letters share a length; their first two letters differ.
        let (a, b) = (table[i].0@, table[j].0@);
        assert(a.len() != b.len() || a[0] != b[0] || a[1] != b[1]);
    }
}

/// No row of the table has an empty service name.
pub proof fn lemma_services_are_not_empty(prefix: Seq<char>, from: int)
    ensures
        first_match(AWS_HOST_TO_SERVICE@, from, prefix) matches Some(service) ==> service.len() > 0,
    decreases AWS_HOST_TO_SERVICE@.len() - from,
{
    reveal_strlit("bedrock");
    reveal_strlit("dynamodb");
    reveal_strlit("s3");
    reveal_strlit("lambda");
    reveal_strlit("sqs");
    reveal_strlit("sns");
    reveal_strlit("logs");
    reveal_strlit("execute-api");
    reveal_strlit("sts");
    reveal_strlit("iam");
    reveal_strlit("ses");
    if 0 <= from < AWS_HOST_TO_SERVICE@.len() {
        lemma_services_are_not_empty(prefix, from + 1);
    }
}

/// A region's name between a service and `amazonaws.com` is the region that is found there,
/// whatever the service.
pub proof fn law_region_round_trip(service: Seq<char>, region: Seq<char>)
    requires
        !service.contains('.'),
        is_region_shaped(region),
    ensures
        region_of(service + seq!['.'] + (region + seq!['.'] + "amazonaws.com"@)) == Some(region),
{
    assert(!region.contains('.')) by {
        assert forall|i: int| 0 <= i < region.len() implies region[i] != '.' by {
            assert(is_region_char(region[i]));
        }
    }
    lemma_domain("amazonaws.com"@);
    text::lemma_piece_before(service, '.', region + seq!['.'] + "amazonaws.com"@);
    text::lemma_piece_before(region, '.', "amazonaws.com"@);
}

/// A region is found in no other host: one that names a region is
/// `<service>.<region>.amazonaws.com`.
pub proof fn law_region_needs_the_domain(service: Seq<char>, region: Seq<char>, rest: Seq<char>)
    requires
        !service.contains('.'),
        !region.contains('.'),
    ensures
        region_of(service + seq!['.'] + (region + seq!['.'] + rest)) is Some <==> rest
            == "amazonaws.com"@ && is_region_shaped(region),
        region_of(service + seq!['.'] + region) is None,
        region_of(service) is None,
{
    lemma_domain(rest);
    text::lemma_piece_before(service, '.', region + seq!['.'] + rest);
    text::lemma_piece_before(service, '.', region);
    text::lemma_piece_before(region, '.', rest);
    let segments = text::split(service + seq!['.'] + (region + seq!['.'] + rest), '.');
    assert(segments.skip(2) == text::split(rest, '.'));
    if segments.len() == 4 && segments[2] == "amazonaws"@ && segments[3] == "com"@ {
        assert(segments.skip(2) == seq!["amazonaws"@, "com"@]);
    }
}

/// A region is found whatever its name is, as long as it is made of the letters from `a` to
/// `z`, digits and hyphens, with a hyphen in it and a digit at its end; what is not so made is
/// no region.
pub proof fn law_regions_by_their_characters(service: Seq<char>, region: Seq<char>)
    requires
        forall|i: int| 0 <= i < service.len() ==> service[i] != '.',
        forall|i: int| 0 <= i < region.len() ==> region[i] != '.',
    ensures
        region_of(service + seq!['.'] + (region + seq!['.'] + "amazonaws.com"@)) == (if (forall|
            i: int,
        |
            0 <= i < region.len() ==> ('a' <= #[trigger] region[i] && region[i] <= 'z') || ('0'
                <= region[i] && region[i] <= '9') || region[i] == '-') && (exists|i: int|
            0 <= i < region.len() && region[i] == '-') && '0' <= region.last() && region.last()
            <= '9' {
            Some(region)
        } else {
            None
        }),
{
    law_region_needs_the_domain(service, region, "amazonaws.com"@);
    if is_region_shaped(region) {
        law_region_round_trip(service, region);
        assert forall|i: int| 0 <= i < region.len() implies ('a' <= #[trigger] region[i]
            && region[i] <= 'z') || ('0' <= region[i] && region[i] <= '9') || region[i] == '-' by {
            assert(is_region_char(region[i]));
        }
    }
}

/// No region is found in a host that does not end in `amazonaws.com` right behind its second
/// segment, nor in one of fewer segments.
pub proof fn law_no_region_elsewhere(service: Seq<char>, region: Seq<char>, rest: Seq<char>)
    requires
        forall|i: int| 0 <= i < service.len() ==> service[i] != '.',
        forall|i: int| 0 <= i < region.len() ==> region[i] != '.',
        rest != "amazonaws.com"@,
    ensures
        region_of(service + seq!['.'] + (region + seq!['.'] + rest)) is None,
        region_of(service + seq!['.'] + region) is None,
        region_of(service) is None,
{
    law_region_needs_the_domain(service, region, rest);
}

/// The service of a host is that of the table's row for its first segment, whatever comes
/// behind it, and a host without such a row has none.
pub proof fn law_service_is_that_of_a_row(prefix: Seq<char>, rest: Seq<char>)
    requires
        forall|i: int| 0 <= i < prefix.len() ==> prefix[i] != '.',
    ensures
        service_of(prefix + seq!['.'] + rest) == service_of(prefix),
        service_of(prefix) is Some <==> exists|row: int|
            0 <= row < AWS_HOST_TO_SERVICE@.len() && (#[trigger] AWS_HOST_TO_SERVICE@[row]).0@
                == prefix,
        forall|row: int|
            0 <= row < AWS_HOST_TO_SERVICE@.len() && (#[trigger] AWS_HOST_TO_SERVICE@[row]).0@
                == prefix ==> service_of(prefix) == Some(AWS_HOST_TO_SERVICE@[row].1@),
{
    law_service_by_first_segment(prefix, rest);
    lemma_prefixes_differ();
    let table = AWS_HOST_TO_SERVICE@;
    assert forall|row: int| 0 <= row < table.len() && (#[trigger] table[row]).0@
        == prefix implies service_of(prefix) == Some(table[row].1@) by {
        lemma_first_match_is(table, 0, row);
    }
    lemma_first_match_is_a_row(table, 0, prefix);
}

/// What is matched is a row.
proof fn lemma_first_match_is_a_row(
    table: Seq<(&'static str, &'static str)>,
    from: int,
    prefix: Seq<char>,
)
    requires
        0 <= from,
    ensures
        first_match(table, from, prefix) is Some ==> exists|row: int|
            from <= row < table.len() && (#[trigger] table[row]).0@ == prefix,
    decreases table.len() - from,
{
    if from < table.len() && table[from].0@ != prefix {
        lemma_first_match_is_a_row(table, from + 1, prefix);
    }
}

/// The table: fifteen prefixes and the services they sign as.
pub proof fn law_table()
    ensures
        AWS_HOST_TO_SERVICE@.map_values(|row: (&'static str, &'static str)| (row.0@, row.1@))
            == seq![
            ("bedrock"@, "bedrock"@),
            ("bedrock-runtime"@, "bedrock"@),
            ("bedrock-agent"@, "bedrock"@),
            ("bedrock-agent-runtime"@, "bedrock"@),
            ("dynamodb"@, "dynamodb"@),
            ("s3"@, "s3"@),
            ("lambda"@, "lambda"@),
            ("sqs"@, "sqs"@),
            ("sns"@, "sns"@),
            ("logs"@, "logs"@),
            ("execute-api"@, "execute-api"@),
            ("sts"@, "sts"@),
            ("iam"@, "iam"@),
            ("email"@, "ses"@),
            ("ses"@, "ses"@),
        ],
{
}

} // verus!
