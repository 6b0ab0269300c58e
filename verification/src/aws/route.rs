//! The SigV4 state of one route.

use aws_credential_types::provider::SharedCredentialsProvider;
use vstd::prelude::*;

verus! {

/// A shared credential provider of `aws_credential_types`: a handle that is carried
/// from the cache to the routes and asked for credentials outside this library.
#[verifier::external_type_specification]
#[verifier::external_body]
pub struct ExSharedCredentialsProvider(
    aws_credential_types::provider::SharedCredentialsProvider,
);

/// A fully resolved SigV4 route.
pub struct AwsRoute {
    /// The upstream URL, such as `https://bedrock-runtime.us-east-1.amazonaws.com`.
    pub upstream: String,
    /// The signing region, such as `us-east-1`.
    pub region: String,
    /// The SigV4 service name, such as `bedrock`.
    pub service: String,
    /// The key that the provider is cached under; `<default>` without a profile.
    pub profile_key: String,
    /// The credential provider, shared by the routes of one `profile_key`.
    pub provider: SharedCredentialsProvider,
}

/// What stands in the place of the provider when a route is shown.
pub const SHOWN_PROVIDER: &'static str = "[SharedCredentialsProvider]";

impl AwsRoute {
    /// The fields of the route and their values as they are shown for debugging. The
    /// provider is never shown, only a placeholder for it.
    pub open spec fn shown_fields(&self) -> Seq<(Seq<char>, Seq<char>)> {
        seq![
            ("upstream"@, self.upstream@),
            ("region"@, self.region@),
            ("service"@, self.service@),
            ("profile_key"@, self.profile_key@),
            ("provider"@, SHOWN_PROVIDER@),
        ]
    }

    /// The names and values that a debug printout of the route consists of.
    pub fn debug_fields(&self) -> (r: Vec<(&'static str, String)>)
        ensures
            r@.map_values(|f: (&'static str, String)| (f.0@, f.1@)) == self.shown_fields(),
    {
        let mut fields: Vec<(&'static str, String)> = Vec::new();
        fields.push(("upstream", self.upstream.clone()));
        fields.push(("region", self.region.clone()));
        fields.push(("service", self.service.clone()));
        fields.push(("profile_key", self.profile_key.clone()));
        fields.push(("provider", SHOWN_PROVIDER.to_owned()));
        fields
    }
}

/// What is shown of a route does not depend on its credential provider.
pub proof fn law_provider_is_not_shown(a: AwsRoute, b: AwsRoute)
    requires
        a.upstream@ == b.upstream@,
        a.region@ == b.region@,
        a.service@ == b.service@,
        a.profile_key@ == b.profile_key@,
    ensures
        a.shown_fields() == b.shown_fields(),
{
}

/// All of a route is shown under the names of its fields, in order, but for the provider.
pub proof fn law_route_is_shown(route: AwsRoute)
    ensures
        route.shown_fields().len() == 5,
        route.shown_fields()[0] == ("upstream"@, route.upstream@),
        route.shown_fields()[1] == ("region"@, route.region@),
        route.shown_fields()[2] == ("service"@, route.service@),
        route.shown_fields()[3] == ("profile_key"@, route.profile_key@),
        route.shown_fields()[4] == ("provider"@, "[SharedCredentialsProvider]"@),
{
}

} // verus!
