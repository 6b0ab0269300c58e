//! Region and service of a route.
//!
//! Each is taken from the route's explicit setting; without one it is detected
//! from the upstream host; where that fails too, the route is refused.

use vstd::prelude::*;
use vstd::string::*;

use crate::aws::endpoints;
use crate::text;

verus! {

/// What the refusal of an empty `aws_auth.region` says.
pub open spec fn empty_region_message() -> Seq<char> {
    "aws_auth.region is set but empty — provide a region like \"us-east-1\" or remove the field to use auto-detection"@
}

/// What the refusal says when the region cannot be detected from `host`.
pub open spec fn unknown_region_message(host: Seq<char>) -> Seq<char> {
    "could not auto-detect AWS region from upstream host '"@ + host
        + "'; set aws_auth.region explicitly (e.g., \"us-east-1\")"@
}

/// What the refusal of an empty `aws_auth.service` says.
pub open spec fn empty_service_message() -> Seq<char> {
    "aws_auth.service is set but empty — provide a service name like \"bedrock\" or \"s3\", or remove the field to use auto-detection"@
}

/// What the refusal says when the service cannot be detected from `host`.
pub open spec fn unknown_service_message(host: Seq<char>) -> Seq<char> {
    "could not auto-detect AWS service name from upstream host '"@ + host
        + "'; set aws_auth.service explicitly (e.g., \"bedrock\", \"s3\")"@
}

/// The setting where there is one, unless it is empty; else what was detected.
pub open spec fn resolved(
    explicit: Option<Seq<char>>,
    detected: Option<Seq<char>>,
    when_empty: Seq<char>,
    when_unknown: Seq<char>,
) -> Result<Seq<char>, Seq<char>> {
    match explicit {
        Some(value) => if value.len() == 0 {
            Err(when_empty)
        } else {
            Ok(value)
        },
        None => match detected {
            Some(value) => Ok(value),
            None => Err(when_unknown),
        },
    }
}

/// The region of a route with the setting `explicit` and the upstream `host`.
pub open spec fn region_for(explicit: Option<Seq<char>>, host: Seq<char>) -> Result<
    Seq<char>,
    Seq<char>,
> {
    resolved(
        explicit,
        endpoints::region_of(host),
        empty_region_message(),
        unknown_region_message(host),
    )
}

/// The service of a route with the setting `explicit` and the upstream `host`.
pub open spec fn service_for(explicit: Option<Seq<char>>, host: Seq<char>) -> Result<
    Seq<char>,
    Seq<char>,
> {
    resolved(
        explicit,
        endpoints::service_of(host),
        empty_service_message(),
        unknown_service_message(host),
    )
}

/// The characters of a text or of the error in its place.
pub open spec fn outcome_of(r: Result<String, String>) -> Result<Seq<char>, Seq<char>> {
    match r {
        Ok(t) => Ok(t@),
        Err(t) => Err(t@),
    }
}

/// Resolves the signing region of a route. `explicit` is the route's
/// `aws_auth.region`, `upstream_host` the host of its upstream URL.
pub fn resolve_region(explicit: Option<&str>, upstream_host: &str) -> (r: Result<String, String>)
    ensures
        outcome_of(r) == region_for(text::text_of(explicit), upstream_host@),
{
    if let Some(region) = explicit {
        if region.is_empty() {
            return Err(
                "aws_auth.region is set but empty — provide a region like \"us-east-1\" or remove the field to use auto-detection".to_owned(),
            );
        }
        return Ok(region.to_owned());
    }
    match endpoints::lookup_region(upstream_host) {
        Some(region) => Ok(region),
        None => {
            let mut message = "could not auto-detect AWS region from upstream host '".to_owned();
            message.append(upstream_host);
            message.append("'; set aws_auth.region explicitly (e.g., \"us-east-1\")");
            Err(message)
        },
    }
}

/// Resolves the SigV4 service name of a route. `explicit` is the route's
/// `aws_auth.service`, `upstream_host` the host of its upstream URL.
pub fn resolve_service(explicit: Option<&str>, upstream_host: &str) -> (r: Result<String, String>)
    ensures
        outcome_of(r) == service_for(text::text_of(explicit), upstream_host@),
{
    if let Some(service) = explicit {
        if service.is_empty() {
            return Err(
                "aws_auth.service is set but empty — provide a service name like \"bedrock\" or \"s3\", or remove the field to use auto-detection".to_owned(),
            );
        }
        return Ok(service.to_owned());
    }
    match endpoints::lookup_service(upstream_host) {
        Some(service) => Ok(service.to_owned()),
        None => {
            let mut message =
                "could not auto-detect AWS service name from upstream host '".to_owned();
            message.append(upstream_host);
            message.append("'; set aws_auth.service explicitly (e.g., \"bedrock\", \"s3\")");
            Err(message)
        },
    }
}

/// An explicit setting decides alone: the host plays no part, whether the setting is
/// taken or refused.
pub proof fn law_explicit_setting_wins(explicit: Seq<char>, host: Seq<char>, other: Seq<char>)
    ensures
        region_for(Some(explicit), host) == region_for(Some(explicit), other),
        service_for(Some(explicit), host) == service_for(Some(explicit), other),
        explicit.len() > 0 ==> region_for(Some(explicit), host) == Ok::<Seq<char>, Seq<char>>(
            explicit,
        ) && service_for(Some(explicit), host) == Ok::<Seq<char>, Seq<char>>(explicit),
        explicit.len() == 0 ==> region_for(Some(explicit), host) is Err && service_for(
            Some(explicit),
            host,
        ) is Err,
{
}

/// A region or service that is resolved is never empty.
pub proof fn law_resolved_is_not_empty(explicit: Option<Seq<char>>, host: Seq<char>)
    ensures
        region_for(explicit, host) matches Ok(region) ==> region.len() > 0,
        service_for(explicit, host) matches Ok(service) ==> service.len() > 0,
{
    endpoints::lemma_services_are_not_empty(text::split(host, '.')[0], 0);
}

/// A detected region, given back as the explicit setting, resolves to itself.
pub proof fn law_detected_region_is_stable(host: Seq<char>, other: Seq<char>)
    ensures
        region_for(None, host) matches Ok(region) ==> region_for(Some(region), other)
            == region_for(None, host),
        service_for(None, host) matches Ok(service) ==> service_for(Some(service), other)
            == service_for(None, host),
{
    law_resolved_is_not_empty(None, host);
}

/// Every refusal names the setting that would help: `aws_auth.region` for a region,
/// `aws_auth.service` for a service.
pub proof fn law_refusals_name_the_setting(explicit: Option<Seq<char>>, host: Seq<char>)
    ensures
        region_for(explicit, host) matches Err(message) ==> text::mentions(
            message,
            "aws_auth.region"@,
        ),
        service_for(explicit, host) matches Err(message) ==> text::mentions(
            message,
            "aws_auth.service"@,
        ),
{
    reveal_strlit("aws_auth.region");
    reveal_strlit("aws_auth.service");
    reveal_strlit(
        "aws_auth.region is set but empty — provide a region like \"us-east-1\" or remove the field to use auto-detection",
    );
    reveal_strlit("'; set aws_auth.region explicitly (e.g., \"us-east-1\")");
    reveal_strlit(
        "aws_auth.service is set but empty — provide a service name like \"bedrock\" or \"s3\", or remove the field to use auto-detection",
    );
    reveal_strlit("'; set aws_auth.service explicitly (e.g., \"bedrock\", \"s3\")");
    let region = "aws_auth.region"@;
    let service = "aws_auth.service"@;
    assert(empty_region_message().subrange(0, region.len() as int) == region);
    text::lemma_mentions(empty_region_message(), region, 0);
    assert(empty_service_message().subrange(0, service.len() as int) == service);
    text::lemma_mentions(empty_service_message(), service, 0);
    let a: int = "could not auto-detect AWS region from upstream host '"@.len() as int + host.len() + 7;
    assert(unknown_region_message(host).subrange(a, a + region.len()) == region);
    text::lemma_mentions(unknown_region_message(host), region, a);
    let b: int = "could not auto-detect AWS service name from upstream host '"@.len() as int + host.len() + 7;
    assert(unknown_service_message(host).subrange(b, b + service.len()) == service);
    text::lemma_mentions(unknown_service_message(host), service, b);
}

/// Without a setting the region and the service are those of the host, and where it has
/// none, the report quotes the host and says what to set. An empty setting is reported
/// whatever the host.
pub proof fn law_detection(host: Seq<char>)
    ensures
        endpoints::region_of(host) matches Some(region) ==> region_for(None, host) == Ok::<
            Seq<char>,
            Seq<char>,
        >(region),
        endpoints::region_of(host) is None ==> region_for(None, host) == Err::<
            Seq<char>,
            Seq<char>,
        >(
            "could not auto-detect AWS region from upstream host '"@ + host
                + "'; set aws_auth.region explicitly (e.g., \"us-east-1\")"@,
        ),
        endpoints::service_of(host) matches Some(service) ==> service_for(None, host) == Ok::<
            Seq<char>,
            Seq<char>,
        >(service),
        endpoints::service_of(host) is None ==> service_for(None, host) == Err::<
            Seq<char>,
            Seq<char>,
        >(
            "could not auto-detect AWS service name from upstream host '"@ + host
                + "'; set aws_auth.service explicitly (e.g., \"bedrock\", \"s3\")"@,
        ),
        region_for(Some(seq![]), host) == Err::<Seq<char>, Seq<char>>(
            "aws_auth.region is set but empty — provide a region like \"us-east-1\" or remove the field to use auto-detection"@,
        ),
        service_for(Some(seq![]), host) == Err::<Seq<char>, Seq<char>>(
            "aws_auth.service is set but empty — provide a service name like \"bedrock\" or \"s3\", or remove the field to use auto-detection"@,
        ),
{
}

/// A setting that is not empty is taken as it is.
pub proof fn law_setting_is_taken_as_it_is(explicit: Seq<char>, host: Seq<char>)
    requires
        explicit.len() > 0,
    ensures
        region_for(Some(explicit), host) == Ok::<Seq<char>, Seq<char>>(explicit),
        service_for(Some(explicit), host) == Ok::<Seq<char>, Seq<char>>(explicit),
{
}

/// A result is seen as its characters, and a text as a text, an error as an error.
pub proof fn law_outcome(t: String)
    ensures
        outcome_of(Ok(t)) == Ok::<Seq<char>, Seq<char>>(t@),
        outcome_of(Err(t)) == Err::<Seq<char>, Seq<char>>(t@),
{
}

} // verus!
