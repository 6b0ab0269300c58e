//! Credential providers, one for each profile.
//!
//! Routes that name the same profile share one provider, so that they share its
//! identity cache and its refreshes too.

use aws_config::profile::ProfileFileCredentialsProvider;
use aws_credential_types::provider::SharedCredentialsProvider;
use vstd::hash_map::StringHashMap;
use vstd::prelude::*;

use crate::text;

verus! {

/// The key of the provider that is used when no profile is configured.
pub const DEFAULT_PROFILE_KEY: &'static str = "<default>";

/// What is reported when the default credential chain has no provider.
pub open spec fn no_provider_message() -> Seq<char> {
    "default AWS credential chain yielded no credentials provider — configure AWS_ACCESS_KEY_ID / AWS_SECRET_ACCESS_KEY or an AWS profile"@
}

/// The profile that a provider reads from the profile files, where it was built to
/// read the one profile of that name and to consult nothing else for the choice.
pub uninterp spec fn provider_profile(provider: SharedCredentialsProvider) -> Option<Seq<char>>;

/// `Clone` of `SharedCredentialsProvider` copies the handle: the clone shares the
/// provider behind it and its cache partition with the value it was made from.
pub assume_specification[ <SharedCredentialsProvider as Clone>::clone ](
    provider: &SharedCredentialsProvider,
) -> (r: SharedCredentialsProvider)
    ensures
        r == *provider,
;

/// Calls `ProfileFileCredentialsProvider::builder`, `profile_name` and `build` of
/// `aws_config`, and `SharedCredentialsProvider::new`. The contract claims that the
/// provider is one for the profile called `name`. What credentials it will give is
/// left open: it reads them from the files of the machine when it is asked.
#[verifier::external_body]
fn build_profile_provider(name: &str) -> (r: SharedCredentialsProvider)
    ensures
        provider_profile(r) == Some(name@),
{
    SharedCredentialsProvider::new(
        ProfileFileCredentialsProvider::builder().profile_name(name).build(),
    )
}

/// The key that the provider of `profile` is cached under.
pub open spec fn key_of(profile: Option<Seq<char>>) -> Seq<char> {
    match profile {
        Some(name) => name,
        None => DEFAULT_PROFILE_KEY@,
    }
}

/// The key that the provider of `profile` is cached under: the name of the profile,
/// or `DEFAULT_PROFILE_KEY`.
pub fn profile_key(profile: Option<&str>) -> (r: String)
    ensures
        r@ == key_of(text::text_of(profile)),
{
    match profile {
        Some(name) => name.to_owned(),
        None => DEFAULT_PROFILE_KEY.to_owned(),
    }
}

/// The providers that have been built, by profile key.
pub struct ProviderCache {
    entries: StringHashMap<SharedCredentialsProvider>,
}

impl View for ProviderCache {
    type V = Map<Seq<char>, SharedCredentialsProvider>;

    closed spec fn view(&self) -> Self::V {
        self.entries@
    }
}

/// Whether every provider in the cache is one for the profile that it is cached
/// under. The key of the default chain is left out: its provider has no profile.
pub open spec fn is_by_profile(cache: Map<Seq<char>, SharedCredentialsProvider>) -> bool {
    forall|key: Seq<char>| #[trigger]
        cache.contains_key(key) && key != DEFAULT_PROFILE_KEY@ ==> provider_profile(cache[key])
            == Some(key)
}

/// What asking for the provider of `profile` comes to: `step`, and the cache going from
/// `before` to `after`. A cached provider is handed out; one for a named profile is built
/// and cached; the default chain is asked for.
pub open spec fn is_provider_step(
    profile: Option<Seq<char>>,
    before: Map<Seq<char>, SharedCredentialsProvider>,
    step: ProviderStep,
    after: Map<Seq<char>, SharedCredentialsProvider>,
) -> bool {
    let key = key_of(profile);
    if before.contains_key(key) {
        &&& step == ProviderStep::Ready(before[key])
        &&& after == before
    } else {
        match profile {
            Some(name) => {
                &&& step matches ProviderStep::Ready(provider)
                &&& provider_profile(provider) == Some(name)
                &&& after == before.insert(key, provider)
            },
            None => {
                &&& step is LoadDefaultChain
                &&& after == before
            },
        }
    }
}

/// What `get_or_build_provider` comes to.
pub enum ProviderStep {
    /// The provider of the profile.
    Ready(SharedCredentialsProvider),
    /// The default credential chain has to be loaded; the outcome goes to
    /// `ProviderCache::store_default_chain`.
    LoadDefaultChain,
}

impl ProviderCache {
    /// A cache without providers.
    pub fn new() -> (r: Self)
        ensures
            r@ == Map::<Seq<char>, SharedCredentialsProvider>::empty(),
            is_by_profile(r@),
    {
        ProviderCache { entries: StringHashMap::new() }
    }

    /// Takes up the provider that the default credential chain came to: caches it
    /// under `DEFAULT_PROFILE_KEY` and hands it out. Without one it reports an error
    /// and leaves the cache as it is.
    pub fn store_default_chain(
        &mut self,
        loaded: Option<SharedCredentialsProvider>,
    ) -> (r: Result<SharedCredentialsProvider, String>)
        ensures
            match loaded {
                Some(provider) => {
                    &&& r == Ok::<SharedCredentialsProvider, String>(provider)
                    &&& final(self)@ == old(self)@.insert(DEFAULT_PROFILE_KEY@, provider)
                },
                None => {
                    &&& r matches Err(message) && message@ == no_provider_message()
                    &&& final(self)@ == old(self)@
                },
            },
            is_by_profile(old(self)@) ==> is_by_profile(final(self)@),
    {
        match loaded {
            Some(provider) => {
                self.entries.insert(DEFAULT_PROFILE_KEY.to_owned(), provider.clone());
                Ok(provider)
            },
            None => Err(
                "default AWS credential chain yielded no credentials provider — configure AWS_ACCESS_KEY_ID / AWS_SECRET_ACCESS_KEY or an AWS profile".to_owned(),
            ),
        }
    }
}

/// Retrieves the provider of `profile` from the cache, or builds it.
///
/// A provider for a named profile reads that profile from the profile files and
/// consults no environment variables: a session may have dummy keys in its
/// environment, and the proxy must not sign with those. It is cached at once.
/// Without a profile the default chain is wanted; loading that reads the
/// environment, so it is left to the caller.
pub fn get_or_build_provider(profile: Option<&str>, cache: &mut ProviderCache) -> (r: ProviderStep)
    ensures
        is_provider_step(text::text_of(profile), old(cache)@, r, final(cache)@),
        is_by_profile(old(cache)@) ==> is_by_profile(final(cache)@),
{
    let key = profile_key(profile);
    if let Some(provider) = cache.entries.get(key.as_str()) {
        return ProviderStep::Ready(provider.clone());
    }
    match profile {
        Some(name) => {
            let provider = build_profile_provider(name);
            cache.entries.insert(key, provider.clone());
            ProviderStep::Ready(provider)
        },
        None => ProviderStep::LoadDefaultChain,
    }
}

/// Routes of one profile share one provider: once a provider was handed out for a
/// profile, every later request for that profile gets the same one, and the cache stays
/// as it is.
pub proof fn law_profile_shares_provider(
    profile: Option<Seq<char>>,
    c0: Map<Seq<char>, SharedCredentialsProvider>,
    provider: SharedCredentialsProvider,
    c1: Map<Seq<char>, SharedCredentialsProvider>,
    again: ProviderStep,
    c2: Map<Seq<char>, SharedCredentialsProvider>,
)
    requires
        is_provider_step(profile, c0, ProviderStep::Ready(provider), c1),
        is_provider_step(profile, c1, again, c2),
    ensures
        again == ProviderStep::Ready(provider),
        c2 == c1,
{
}

/// The default chain is loaded once: after its provider was stored, a request without a
/// profile gets it.
pub proof fn law_default_chain_is_shared(
    before: Map<Seq<char>, SharedCredentialsProvider>,
    provider: SharedCredentialsProvider,
    step: ProviderStep,
    after: Map<Seq<char>, SharedCredentialsProvider>,
)
    requires
        is_provider_step(None, before.insert(DEFAULT_PROFILE_KEY@, provider), step, after),
    ensures
        step == ProviderStep::Ready(provider),
{
}

/// A request keeps every provider that was cached before it.
pub proof fn law_request_keeps_other_providers(
    profile: Option<Seq<char>>,
    before: Map<Seq<char>, SharedCredentialsProvider>,
    step: ProviderStep,
    after: Map<Seq<char>, SharedCredentialsProvider>,
    key: Seq<char>,
)
    requires
        is_provider_step(profile, before, step, after),
        before.contains_key(key),
    ensures
        after.contains_key(key),
        after[key] == before[key],
{
}

/// A named profile never gets another identity: the provider that it gets is one for that
/// profile, cached or new. A profile that is called like the default chain's key is the
/// one exception, since it shares the key.
pub proof fn law_named_profile_gets_its_own_provider(
    name: Seq<char>,
    before: Map<Seq<char>, SharedCredentialsProvider>,
    step: ProviderStep,
    after: Map<Seq<char>, SharedCredentialsProvider>,
)
    requires
        is_by_profile(before),
        name != DEFAULT_PROFILE_KEY@,
        is_provider_step(Some(name), before, step, after),
    ensures
        step matches ProviderStep::Ready(provider) && provider_profile(provider) == Some(name),
        is_by_profile(after),
{
}

/// A profile is cached under its own name, whatever that is, and the default chain under
/// `<default>`.
pub proof fn law_keys(name: Seq<char>)
    ensures
        key_of(Some(name)) == name,
        key_of(None) == "<default>"@,
{
}

/// A request that finds its key in the cache gets what is cached there, and nothing changes.
pub proof fn law_cached_provider_is_handed_out(
    name: Seq<char>,
    before: Map<Seq<char>, SharedCredentialsProvider>,
    step: ProviderStep,
    after: Map<Seq<char>, SharedCredentialsProvider>,
)
    ensures
        is_provider_step(Some(name), before, step, after) && before.dom().contains(name) ==> step
            == ProviderStep::Ready(before[name]) && after == before,
        is_provider_step(None, before, step, after) && before.dom().contains("<default>"@) ==> step
            == ProviderStep::Ready(before["<default>"@]) && after == before,
{
}

/// A request that does not find its key: a named profile gets a new provider of its own, which
/// is cached under its name and nothing else is; without a profile the default chain is to be
/// loaded, and nothing changes.
pub proof fn law_missing_provider_is_built(
    name: Seq<char>,
    before: Map<Seq<char>, SharedCredentialsProvider>,
    step: ProviderStep,
    after: Map<Seq<char>, SharedCredentialsProvider>,
)
    ensures
        is_provider_step(Some(name), before, step, after) && !before.dom().contains(name) ==> {
            &&& step is Ready
            &&& provider_profile(step->Ready_0) == Some(name)
            &&& after == before.insert(name, step->Ready_0)
        },
        is_provider_step(None, before, step, after) && !before.dom().contains("<default>"@) ==> step
            is LoadDefaultChain && after == before,
{
}

/// The cache is kept by profile: under every name but `<default>` stands a provider for the
/// profile of that name.
pub proof fn law_cache_is_by_profile(
    cache: Map<Seq<char>, SharedCredentialsProvider>,
    name: Seq<char>,
)
    requires
        is_by_profile(cache),
        cache.dom().contains(name),
        name != "<default>"@,
    ensures
        provider_profile(cache[name]) == Some(name),
{
    assert(cache.contains_key(name));
}

/// Without a provider in the default chain the report says what to configure.
pub proof fn law_no_provider_report()
    ensures
        no_provider_message()
            == "default AWS credential chain yielded no credentials provider — configure AWS_ACCESS_KEY_ID / AWS_SECRET_ACCESS_KEY or an AWS profile"@,
{
}

} // verus!
