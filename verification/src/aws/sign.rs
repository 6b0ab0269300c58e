//! SigV4 signatures for outgoing requests.
//!
//! The caller strips the AWS headers that came with the request (those that
//! `is_aws_header` names), has the route's provider resolve the credentials, and
//! puts the headers that `sign_request` returns into the request instead.

use aws_credential_types::Credentials;
use aws_sigv4::http_request::{
    sign, PayloadChecksumKind, PercentEncodingMode, SessionTokenMode, SignableBody,
    SignableRequest, SigningInstructions, SigningSettings, UriPathNormalizationMode,
};
use aws_sigv4::sign::v4;
use std::time::{Duration, UNIX_EPOCH};
use vstd::prelude::*;
use vstd::string::*;

use crate::aws::dates;
use crate::aws::route::AwsRoute;
use crate::aws::signable;
use crate::text;

verus! {

/// Whether `name` is the name of a header that is stripped as an AWS header: it is
/// `authorization`, or begins with `x-amz-`, whatever the case of its ASCII letters.
pub open spec fn is_aws_name(name: Seq<char>) -> bool {
    let lower = text::ascii_lowercase(name);
    ||| lower == "authorization"@
    ||| "x-amz-"@.is_prefix_of(lower)
}

/// Checks if a header is stripped as an AWS header.
#[must_use]
pub fn is_aws_header(name: &str) -> (r: bool)
    ensures
        r == is_aws_name(name@),
{
    let v = text::chars_of(name);
    let authorization = text::chars_of("authorization");
    if v.len() == authorization.len() && text::begins_with(&v, &authorization) {
        assert(text::ascii_lowercase(name@) == "authorization"@);
        return true;
    }
    text::begins_with(&v, &text::chars_of("x-amz-"))
}

/// The settings that the signer of `aws_sigv4` works by.
#[verifier::external_type_specification]
#[verifier::external_body]
pub struct ExSigningSettings(aws_sigv4::http_request::SigningSettings);

/// What the signer of `aws_sigv4` wants done to a request: the headers to add.
#[verifier::external_type_specification]
#[verifier::external_body]
pub struct ExSigningInstructions(aws_sigv4::http_request::SigningInstructions);

/// Which header carries the checksum of the body.
#[derive(Clone, Copy, PartialEq, Eq, Structural)]
pub enum PayloadChecksum {
    /// `x-amz-content-sha256`, which S3 requires and every other service accepts.
    XAmzSha256,
    /// None.
    NoHeader,
}

/// Whether the session token is part of what is signed.
#[derive(Clone, Copy, PartialEq, Eq, Structural)]
pub enum SessionTokens {
    /// It is signed.
    Signed,
    /// It is added after the signature was made.
    Unsigned,
}

/// How often the path of the URL is percent-encoded before it is signed.
#[derive(Clone, Copy, PartialEq, Eq, Structural)]
pub enum PercentEncoding {
    /// The path is taken as it is.
    Single,
    /// The percent signs of the path are encoded once more.
    Double,
}

/// Whether dot segments and empty segments of the path are removed before it is signed.
#[derive(Clone, Copy, PartialEq, Eq, Structural)]
pub enum PathNormalization {
    /// They are removed.
    Enabled,
    /// The path is kept, as the keys of S3 need it.
    Disabled,
}

/// Which headers of the request are signed.
#[derive(Clone, Copy, PartialEq, Eq, Structural)]
pub enum HeaderChoice {
    /// All of them.
    All,
    /// All but those that are often changed on the way, such as `user-agent`.
    Stable,
}

/// How a request is signed.
#[derive(Clone, Copy, PartialEq, Eq, Structural)]
pub struct SigningOptions {
    pub payload_checksum: PayloadChecksum,
    pub session_tokens: SessionTokens,
    pub percent_encoding: PercentEncoding,
    pub path_normalization: PathNormalization,
    pub header_choice: HeaderChoice,
}

/// The signer's default settings with `options` set on them.
pub uninterp spec fn sigv4_settings(options: SigningOptions) -> SigningSettings;

/// Calls `SigningSettings::default` of `aws_sigv4` and sets the five fields that
/// `options` speaks of. The contract names the settings that come out, which depend on
/// `options` alone.
#[verifier::external_body]
fn settings_for(options: SigningOptions) -> (r: SigningSettings)
    ensures
        r == sigv4_settings(options),
{
    let mut r = SigningSettings::default();
    r.payload_checksum_kind = match options.payload_checksum {
        PayloadChecksum::XAmzSha256 => PayloadChecksumKind::XAmzSha256,
        PayloadChecksum::NoHeader => PayloadChecksumKind::NoHeader };
    r.session_token_mode = match options.session_tokens {
        SessionTokens::Signed => SessionTokenMode::Include,
        SessionTokens::Unsigned => SessionTokenMode::Exclude };
    r.percent_encoding_mode = match options.percent_encoding {
        PercentEncoding::Single => PercentEncodingMode::Single,
        PercentEncoding::Double => PercentEncodingMode::Double };
    r.uri_path_normalization_mode = match options.path_normalization {
        PathNormalization::Enabled => UriPathNormalizationMode::Enabled,
        PathNormalization::Disabled => UriPathNormalizationMode::Disabled };
    if let HeaderChoice::All = options.header_choice { r.excluded_headers = None; }
    r
}

/// Keys to sign with.
pub struct SigningCredentials {
    pub access_key_id: String,
    pub secret_access_key: String,
    /// Present with temporary credentials.
    pub session_token: Option<String>,
}

/// The step of signing that failed.
#[derive(Clone, Copy, PartialEq, Eq, Structural)]
pub enum SigningStage {
    /// Putting together the signing parameters.
    Params,
    /// Reading the request.
    Request,
    /// Making the signature.
    Signature,
}

/// Everything but the settings that a signature depends on.
pub struct SigningInput {
    pub access_key_id: Seq<char>,
    pub secret_access_key: Seq<char>,
    pub session_token: Option<Seq<char>>,
    pub region: Seq<char>,
    pub service: Seq<char>,
    pub unix_seconds: int,
    pub method: Seq<char>,
    pub url: Seq<char>,
    pub headers: Seq<(Seq<char>, Seq<char>)>,
    pub body: Seq<u8>,
}

/// What the signer comes to on `input` under `settings`: instructions, or the step that
/// failed and what it reports.
pub uninterp spec fn sigv4_instructions(input: SigningInput, settings: SigningSettings) -> Result<
    SigningInstructions,
    (SigningStage, Seq<char>),
>;

/// The headers that the instructions add, in order: names and values.
pub uninterp spec fn instruction_headers(instructions: SigningInstructions) -> Seq<
    (Seq<char>, Seq<char>),
>;

/// The names of the headers that a signature consists of, in order.
pub open spec fn signature_header_names(options: SigningOptions, session_token: bool) -> Seq<
    Seq<char>,
> {
    seq!["x-amz-date"@, "authorization"@] + (if options.payload_checksum
        == PayloadChecksum::XAmzSha256 {
        seq!["x-amz-content-sha256"@]
    } else {
        seq![]
    }) + (if session_token {
        seq!["x-amz-security-token"@]
    } else {
        seq![]
    })
}

/// Names and values of borrowed headers.
pub open spec fn borrowed_headers(headers: Seq<(&str, &str)>) -> Seq<(Seq<char>, Seq<char>)> {
    headers.map_values(|h: (&str, &str)| (h.0@, h.1@))
}

/// The name of a header as it is signed: in lower case.
pub open spec fn signed_name(name: Seq<char>) -> Seq<char> {
    name.map_values(
        |c: char|
            if c == '\u{212a}' {
                'k'
            } else {
                text::ascii_lower(c)
            },
    )
}

/// The names that are signed when all headers are: those of the request, that of the host,
/// and those of the signature but for the authorization itself.
pub open spec fn signed_names(input: SigningInput, options: SigningOptions) -> Seq<Seq<char>> {
    signable::names_of(input.headers).map_values(|n: Seq<char>| signed_name(n)) + seq![
        "host"@,
        "x-amz-date"@,
    ] + (if options.payload_checksum == PayloadChecksum::XAmzSha256 {
        seq!["x-amz-content-sha256"@]
    } else {
        seq![]
    }) + (if input.session_token is Some {
        seq!["x-amz-security-token"@]
    } else {
        seq![]
    })
}

/// Whether `value` is a checksum or a signature: 64 hexadecimal digits in lower case.
pub open spec fn is_digest(value: Seq<char>) -> bool {
    &&& value.len() == 64
    &&& forall|i: int|
        0 <= i < value.len() ==> ('0' <= #[trigger] value[i] && value[i] <= '9') || ('a' <= value[i]
            && value[i] <= 'f')
}

/// An authorization of the day `day`, with this list of signed headers and this signature.
pub open spec fn authorization(
    input: SigningInput,
    day: Seq<char>,
    names: Seq<char>,
    signature: Seq<char>,
) -> Seq<char> {
    "AWS4-HMAC-SHA256 Credential="@ + input.access_key_id + "/"@ + day + "/"@ + input.region + "/"@
        + input.service + "/aws4_request, SignedHeaders="@ + names + ", Signature="@ + signature
}

/// Whether `value` is an authorization of the day `day` for `input`: it lists the signed
/// headers, each of them once, and ends in a signature.
pub open spec fn is_authorization(
    value: Seq<char>,
    input: SigningInput,
    options: SigningOptions,
    day: Seq<char>,
) -> bool {
    exists|names: Seq<char>, signature: Seq<char>|
        {
            &&& value == #[trigger] authorization(input, day, names, signature)
            &&& is_digest(signature)
            &&& text::split(names, ';').no_duplicates()
            &&& text::split(names, ';').to_set() == signed_names(input, options).to_set()
        }
}

/// Whether `headers` are what a signature of `input` consists of, where all headers and the
/// session token are signed: the date and the time of `input`, the authorization, the
/// checksum, where the options ask for it, and the session token, where there is one.
pub open spec fn is_signature(
    headers: Seq<(Seq<char>, Seq<char>)>,
    input: SigningInput,
    options: SigningOptions,
) -> bool {
    &&& signable::names_of(headers) == signature_header_names(options, input.session_token is Some)
    &&& exists|y: int, m: int, d: int|
        {
            &&& #[trigger] dates::is_day(input.unix_seconds, y, m, d)
            &&& headers[0].1 == dates::day_text(y, m, d) + dates::clock_text(input.unix_seconds)
            &&& is_authorization(headers[1].1, input, options, dates::day_text(y, m, d))
        }
    &&& options.payload_checksum == PayloadChecksum::XAmzSha256 ==> is_digest(headers[2].1)
    &&& input.session_token matches Some(token) ==> headers.last().1 == token
}

/// Whether the signer reports that it cannot sign `input`, once it has read the URL: for one
/// of the headers, or for the session token.
pub open spec fn is_refused_input(input: SigningInput) -> bool {
    ||| signable::has_refused_header(input.headers)
    ||| input.session_token matches Some(token) && signable::is_refused_value(token)
}

/// What the signer is given.
pub open spec fn signer_input(
    credentials: SigningCredentials,
    region: Seq<char>,
    service: Seq<char>,
    unix_seconds: int,
    method: Seq<char>,
    url: Seq<char>,
    headers: Seq<(Seq<char>, Seq<char>)>,
    body: Seq<u8>,
) -> SigningInput {
    SigningInput {
        access_key_id: credentials.access_key_id@,
        secret_access_key: credentials.secret_access_key@,
        session_token: text::string_of(credentials.session_token),
        region: region,
        service: service,
        unix_seconds: unix_seconds,
        method: method,
        url: url,
        headers: headers,
        body: body,
    }
}

/// Calls `Credentials::new` of `aws_credential_types` and, of `aws_sigv4`, the builder of
/// `v4::SigningParams`, `SignableRequest::new` and `sign`; the time of the signature is
/// `after` seconds behind, or `before` seconds ahead of, the beginning of the year 1970. The
/// contract claims that what comes out depends on the arguments alone. Where the settings ask
/// for all headers and for the session token to be signed, it gives the headers that are
/// added as far as `is_signature` says; the digits of the checksum and of the signature are
/// left open. An error comes from reading the URL or from signing, and always says the same.
/// A refused URL is reported, and a plain one is read. Once the URL is read, an error comes
/// exactly where a header or the session token is refused.
#[verifier::external_body]
fn run_signer(
    keys: &SigningCredentials,
    region: &str,
    service: &str,
    after: u64,
    before: u64,
    settings: SigningSettings,
    method: &str,
    url: &str,
    headers: Vec<(&str, &str)>,
    body: &[u8],
) -> (r: Result<SigningInstructions, (SigningStage, String)>)
    requires
        dates::START_OF_DATES <= after - before < dates::END_OF_DATES,
        after == 0 || before == 0,
        signable::is_signable(url.spec_bytes(), borrowed_headers(headers@)),
        exists|options: SigningOptions| settings == sigv4_settings(options),
    ensures
        (match r {
            Ok(instructions) => Ok(instructions),
            Err((stage, report)) => Err((stage, report@)),
        }) == sigv4_instructions(
            signer_input(
                *keys,
                region@,
                service@,
                after - before,
                method@,
                url@,
                borrowed_headers(headers@),
                body@,
            ),
            settings,
        ),
        r matches Ok(instructions) ==> forall|options: SigningOptions|
            settings == #[trigger] sigv4_settings(options) && options.header_choice
                == HeaderChoice::All && options.session_tokens == SessionTokens::Signed
                ==> is_signature(
                instruction_headers(instructions),
                signer_input(
                    *keys,
                    region@,
                    service@,
                    after - before,
                    method@,
                    url@,
                    borrowed_headers(headers@),
                    body@,
                ),
                options,
            ),
        r matches Err((stage, report)) ==> stage != SigningStage::Params && report@
            == "failed to create canonical request"@,
        r matches Err((stage, report)) ==> (signable::is_refused_url(url.spec_bytes()) ==> stage
            == SigningStage::Request),
        r matches Err((stage, report)) ==> (signable::is_plain_url(url.spec_bytes()) ==> stage
            == SigningStage::Signature),
        r matches Err((stage, report)) ==> (stage == SigningStage::Signature ==> is_refused_input(
            signer_input(
                *keys,
                region@,
                service@,
                after - before,
                method@,
                url@,
                borrowed_headers(headers@),
                body@,
            ),
        )),
        r is Ok ==> !signable::is_refused_url(url.spec_bytes()) && !is_refused_input(
            signer_input(
                *keys,
                region@,
                service@,
                after - before,
                method@,
                url@,
                borrowed_headers(headers@),
                body@,
            ),
        ),
{
    let identity = Credentials::new(
        &keys.access_key_id, &keys.secret_access_key, keys.session_token.clone(), None, "",
    ).into();
    let params = v4::SigningParams::builder().identity(&identity).region(region).name(service)
        .time(UNIX_EPOCH + Duration::from_secs(after) - Duration::from_secs(before))
        .settings(settings).build()
        .map_err(|e| (SigningStage::Params, e.to_string()))?.into();
    let request = SignableRequest::new(method, url, headers.into_iter(), SignableBody::Bytes(body))
        .map_err(|e| (SigningStage::Request, e.to_string()))?;
    let signed = sign(request, &params).map_err(|e| (SigningStage::Signature, e.to_string()))?;
    Ok(signed.into_parts().0)
}

/// Calls `SigningInstructions::headers` of `aws_sigv4`. The contract claims that the names
/// and values of the headers come out, in order.
#[verifier::external_body]
fn headers_to_add(instructions: &SigningInstructions) -> (r: Vec<(String, String)>)
    ensures
        signable::owned_headers(r@) == instruction_headers(*instructions),
{
    instructions.headers().map(|(k, v)| (k.to_string(), v.to_string())).collect()
}

/// How requests are signed: with the checksum of the body in a header, the session token
/// signed where there is one, the path as it stands, and all headers.
pub open spec fn request_options() -> SigningOptions {
    SigningOptions {
        payload_checksum: PayloadChecksum::XAmzSha256,
        session_tokens: SessionTokens::Signed,
        percent_encoding: PercentEncoding::Single,
        path_normalization: PathNormalization::Disabled,
        header_choice: HeaderChoice::All,
    }
}

/// What is reported when the provider of a route for `service` gives no credentials.
pub open spec fn credential_failure(service: Seq<char>, report: Seq<char>) -> Seq<char> {
    "AWS credential resolution failed for route '"@ + service + "': "@ + report
}

/// What is reported when a step of signing fails.
pub open spec fn signing_failure(stage: SigningStage, report: Seq<char>) -> Seq<char> {
    (match stage {
        SigningStage::Params => "failed to build SigV4 signing params: "@,
        SigningStage::Request => "failed to build signable request: "@,
        SigningStage::Signature => "SigV4 signing failed: "@,
    }) + report
}

/// The headers to add, or the report of the step that failed.
pub open spec fn signing_result(
    signed: Result<Seq<(Seq<char>, Seq<char>)>, (SigningStage, Seq<char>)>,
) -> Result<Seq<(Seq<char>, Seq<char>)>, Seq<char>> {
    match signed {
        Ok(headers) => Ok(headers),
        Err((stage, report)) => Err(signing_failure(stage, report)),
    }
}

/// Names and values of the headers, or the characters of the error.
pub open spec fn headers_or_error(r: Result<Vec<(String, String)>, String>) -> Result<
    Seq<(Seq<char>, Seq<char>)>,
    Seq<char>,
> {
    match r {
        Ok(headers) => Ok(signable::owned_headers(headers@)),
        Err(message) => Err(message@),
    }
}

/// Everything but the settings that the signature of a request of `route` depends on.
pub open spec fn input_for(
    route: AwsRoute,
    credentials: SigningCredentials,
    unix_seconds: int,
    method: Seq<char>,
    url: Seq<char>,
    headers: Seq<(Seq<char>, Seq<char>)>,
    body: Seq<u8>,
) -> SigningInput {
    signer_input(
        credentials,
        route.region@,
        route.service@,
        unix_seconds,
        method,
        url,
        headers,
        body,
    )
}

/// What the signer comes to, with the headers of its instructions in their place.
pub open spec fn signed_headers(
    instructions: Result<SigningInstructions, (SigningStage, Seq<char>)>,
) -> Result<Seq<(Seq<char>, Seq<char>)>, (SigningStage, Seq<char>)> {
    match instructions {
        Ok(i) => Ok(instruction_headers(i)),
        Err(e) => Err(e),
    }
}

/// What a request comes to, once the signer has come to `signed`.
pub fn signing_outcome(
    signed: Result<Vec<(String, String)>, (SigningStage, String)>,
) -> (r: Result<Vec<(String, String)>, String>)
    ensures
        match signed {
            Ok(headers) => r == Ok::<Vec<(String, String)>, String>(headers),
            Err((stage, report)) => r matches Err(message) && message@ == signing_failure(
                stage,
                report@,
            ),
        },
{
    match signed {
        Ok(headers) => Ok(headers),
        Err((stage, report)) => {
            let mut message = (match stage {
                SigningStage::Params => "failed to build SigV4 signing params: ",
                SigningStage::Request => "failed to build signable request: ",
                SigningStage::Signature => "SigV4 signing failed: ",
            }).to_owned();
            message.append(report.as_str());
            Err(message)
        },
    }
}

/// The headers of a request as the signer takes them.
fn borrow_headers(headers: &[(String, String)]) -> (r: Vec<(&str, &str)>)
    ensures
        borrowed_headers(r@) == signable::owned_headers(headers@),
{
    let mut pairs: Vec<(&str, &str)> = Vec::new();
    for i in 0..headers.len()
        invariant
            borrowed_headers(pairs@) == signable::owned_headers(headers@).take(i as int),
    {
        let ghost before = pairs@;
        pairs.push((headers[i].0.as_str(), headers[i].1.as_str()));
        assert(borrowed_headers(pairs@) == borrowed_headers(before).push(
            signable::owned_headers(headers@)[i as int],
        ));
    }
    assert(signable::owned_headers(headers@).take(headers.len() as int) == signable::owned_headers(headers@));
    pairs
}

/// What is known of what signing `input` comes to, whatever the signer finds: the headers of
/// a signature, or one of two reports. The first says that the URL cannot be read: it comes on
/// a refused URL, and never on a plain one. The second comes where the URL is read and a
/// header or the session token is refused, and only there.
pub open spec fn is_signed(
    r: Result<Vec<(String, String)>, String>,
    url: Seq<u8>,
    input: SigningInput,
) -> bool {
    let unreadable = signing_failure(
        SigningStage::Request,
        "failed to create canonical request"@,
    );
    let unusable = signing_failure(
        SigningStage::Signature,
        "failed to create canonical request"@,
    );
    match r {
        Ok(headers) => {
            &&& !signable::is_refused_url(url)
            &&& !is_refused_input(input)
            &&& is_signature(signable::owned_headers(headers@), input, request_options())
        },
        Err(message) => {
            ||| message@ == unreadable && !signable::is_plain_url(url)
            ||| message@ == unusable && is_refused_input(input) && !signable::is_refused_url(url)
        },
    }
}

/// How many seconds a time lies behind the beginning of the year 1970, and how many ahead of
/// it.
fn from_epoch(unix_seconds: i64) -> (r: (u64, u64))
    requires
        dates::START_OF_DATES <= unix_seconds,
    ensures
        r.0 - r.1 == unix_seconds,
        r.0 == 0 || r.1 == 0,
{
    if unix_seconds >= 0 {
        (unix_seconds as u64, 0)
    } else {
        (0, (-unix_seconds) as u64)
    }
}

/// Signs a request of `route` and returns the headers to add to it: the date, the
/// authorization, the checksum of the body, and the session token where there is one.
///
/// `credentials` is what the route's provider came to, `unix_seconds` the time of the
/// signature, `url` the full URL, `clean_headers` the headers of the request without
/// those that `is_aws_header` names, and `body` the complete body. The error is a report
/// for people to read.
pub fn sign_request(
    route: &AwsRoute,
    credentials: Result<SigningCredentials, String>,
    unix_seconds: i64,
    method: &str,
    url: &str,
    clean_headers: &[(String, String)],
    body: &[u8],
) -> (r: Result<Vec<(String, String)>, String>)
    requires
        credentials is Ok ==> dates::START_OF_DATES <= unix_seconds < dates::END_OF_DATES
            && signable::is_signable(url.spec_bytes(), signable::owned_headers(clean_headers@)),
    ensures
        headers_or_error(r) == (match credentials {
            Err(report) => Err(credential_failure(route.service@, report@)),
            Ok(keys) => signing_result(
                signed_headers(
                    sigv4_instructions(
                        input_for(
                            *route,
                            keys,
                            unix_seconds as int,
                            method@,
                            url@,
                            signable::owned_headers(clean_headers@),
                            body@,
                        ),
                        sigv4_settings(request_options()),
                    ),
                ),
            ),
        }),
        credentials matches Ok(keys) ==> is_signed(
            r,
            url.spec_bytes(),
            input_for(
                *route,
                keys,
                unix_seconds as int,
                method@,
                url@,
                signable::owned_headers(clean_headers@),
                body@,
            ),
        ),
{
    let keys = match credentials {
        Ok(keys) => keys,
        Err(report) => {
            let mut message = "AWS credential resolution failed for route '".to_owned();
            message.append(route.service.as_str());
            message.append("': ");
            message.append(report.as_str());
            return Err(message);
        },
    };
    let settings = settings_for(
        SigningOptions {
            payload_checksum: PayloadChecksum::XAmzSha256,
            session_tokens: SessionTokens::Signed,
            percent_encoding: PercentEncoding::Single,
            path_normalization: PathNormalization::Disabled,
            header_choice: HeaderChoice::All,
        },
    );
    let (after, before) = from_epoch(unix_seconds);
    let signed = run_signer(
        &keys,
        route.region.as_str(),
        route.service.as_str(),
        after,
        before,
        settings,
        method,
        url,
        borrow_headers(clean_headers),
        body,
    );
    let headers = match signed {
        Ok(instructions) => Ok(headers_to_add(&instructions)),
        Err(failure) => Err(failure),
    };
    signing_outcome(headers)
}

/// A plain request is signed: where the URL is a plain one, and neither a header nor the
/// session token is refused, signing does not fail.
pub proof fn law_plain_request_is_signed(
    r: Result<Vec<(String, String)>, String>,
    url: Seq<u8>,
    input: SigningInput,
)
    requires
        is_signed(r, url, input),
        signable::is_plain_url(url),
        !is_refused_input(input),
    ensures
        r is Ok,
{
}

/// Whether a header is stripped does not depend on the case of its ASCII letters.
pub proof fn law_aws_header_ignores_case(name: Seq<char>, other: Seq<char>)
    ensures
        text::ascii_lowercase(name) == text::ascii_lowercase(other) ==> is_aws_name(name)
            == is_aws_name(other),
        is_aws_name(text::ascii_lowercase(name)) == is_aws_name(name),
{
    assert(text::ascii_lowercase(text::ascii_lowercase(name)) == text::ascii_lowercase(name));
}

/// Every name that begins with `x-amz-` is stripped, in any case of its letters, whatever
/// comes after.
pub proof fn law_amz_prefix_is_stripped(prefix: Seq<char>, rest: Seq<char>)
    requires
        text::ascii_lowercase(prefix) == "x-amz-"@,
    ensures
        is_aws_name(prefix + rest),
{
    assert(text::ascii_lowercase(prefix + rest) == "x-amz-"@ + text::ascii_lowercase(rest));
}

/// What a signature adds is what is stripped: no header of an earlier signature, forged or
/// not, can be left beside the new one. And no header is added twice.
pub proof fn law_added_headers_are_stripped_ones(
    options: SigningOptions,
    session_token: bool,
    i: int,
    j: int,
)
    requires
        0 <= i < signature_header_names(options, session_token).len(),
        0 <= j < signature_header_names(options, session_token).len(),
    ensures
        is_aws_name(signature_header_names(options, session_token)[i]),
        i != j ==> signature_header_names(options, session_token)[i] != signature_header_names(
            options,
            session_token,
        )[j],
{
    reveal_strlit("x-amz-");
    reveal_strlit("x-amz-date");
    reveal_strlit("authorization");
    reveal_strlit("x-amz-content-sha256");
    reveal_strlit("x-amz-security-token");
    assert(text::ascii_lowercase("authorization"@) == "authorization"@);
    assert("x-amz-"@.is_prefix_of(text::ascii_lowercase("x-amz-date"@)));
    assert("x-amz-"@.is_prefix_of(text::ascii_lowercase("x-amz-content-sha256"@)));
    assert("x-amz-"@.is_prefix_of(text::ascii_lowercase("x-amz-security-token"@)));
    assert("x-amz-content-sha256"@[6] != "x-amz-security-token"@[6]);
}

/// The stripped headers are `authorization`, letter by letter in either case, and all that
/// begin with the six characters of `x-amz-` in either case. No other name is stripped.
pub proof fn law_stripped_names(name: Seq<char>)
    ensures
        is_aws_name(name) <==> (name.len() == 13 && forall|i: int|
            0 <= i < 13 ==> is_letter_in_either_case(#[trigger] name[i], "authorization"@[i])) || (
        name.len() >= 6 && forall|i: int|
            0 <= i < 6 ==> is_letter_in_either_case(#[trigger] name[i], "x-amz-"@[i])),
{
    reveal_strlit("authorization");
    reveal_strlit("x-amz-");
    let lower = text::ascii_lowercase(name);
    assert forall|i: int| 0 <= i < name.len() implies (lower[i] == "authorization"@[i]
        <==> is_letter_in_either_case(#[trigger] name[i], "authorization"@[i])) || i >= 13 by {
        text::law_lower_case(name, i);
    }
    assert forall|i: int| 0 <= i < name.len() implies (lower[i] == "x-amz-"@[i]
        <==> is_letter_in_either_case(#[trigger] name[i], "x-amz-"@[i])) || i >= 6 by {
        text::law_lower_case(name, i);
    }
    if name.len() == 13 && forall|i: int|
        0 <= i < 13 ==> is_letter_in_either_case(#[trigger] name[i], "authorization"@[i]) {
        assert forall|i: int| 0 <= i < 13 implies lower[i] == "authorization"@[i] by {
            assert(is_letter_in_either_case(name[i], "authorization"@[i]));
        }
        assert(lower == "authorization"@);
    }
    if name.len() >= 6 && forall|i: int|
        0 <= i < 6 ==> is_letter_in_either_case(#[trigger] name[i], "x-amz-"@[i]) {
        assert forall|i: int| 0 <= i < 6 implies lower[i] == "x-amz-"@[i] by {
            assert(is_letter_in_either_case(name[i], "x-amz-"@[i]));
        }
        assert(lower.take(6) == "x-amz-"@);
    }
    if lower == "authorization"@ {
        assert forall|i: int| 0 <= i < 13 implies is_letter_in_either_case(
            #[trigger] name[i],
            "authorization"@[i],
        ) by {
            assert(lower[i] == "authorization"@[i]);
        }
    }
    if "x-amz-"@.is_prefix_of(lower) {
        assert forall|i: int| 0 <= i < 6 implies is_letter_in_either_case(
            #[trigger] name[i],
            "x-amz-"@[i],
        ) by {
            assert(lower.take(6)[i] == "x-amz-"@[i]);
        }
    }
}

/// Whether `c` is `letter`, or, where `letter` is one from `a` to `z`, its capital.
pub open spec fn is_letter_in_either_case(c: char, letter: char) -> bool {
    c == letter || ('a' <= letter && letter <= 'z' && c as u32 + 32 == letter as u32)
}

/// What is signed is the request itself: each argument goes to the signer as it came, region
/// and service from the route, and the keys from the credentials.
pub proof fn law_the_request_itself_is_signed(
    route: AwsRoute,
    credentials: SigningCredentials,
    unix_seconds: int,
    method: Seq<char>,
    url: Seq<char>,
    headers: Seq<(Seq<char>, Seq<char>)>,
    body: Seq<u8>,
)
    ensures
        ({
            let input = input_for(route, credentials, unix_seconds, method, url, headers, body);
            &&& input.method == method
            &&& input.url == url
            &&& input.headers == headers
            &&& input.body == body
            &&& input.unix_seconds == unix_seconds
            &&& input.region == route.region@
            &&& input.service == route.service@
            &&& input.access_key_id == credentials.access_key_id@
            &&& input.secret_access_key == credentials.secret_access_key@
            &&& credentials.session_token is None ==> input.session_token is None
            &&& credentials.session_token is Some ==> input.session_token == Some(
                credentials.session_token->0@,
            )
        }),
{
}

/// The signer is given exactly what it is called with.
pub proof fn law_signer_input(
    credentials: SigningCredentials,
    region: Seq<char>,
    service: Seq<char>,
    unix_seconds: int,
    method: Seq<char>,
    url: Seq<char>,
    headers: Seq<(Seq<char>, Seq<char>)>,
    body: Seq<u8>,
)
    ensures
        ({
            let input = signer_input(
                credentials,
                region,
                service,
                unix_seconds,
                method,
                url,
                headers,
                body,
            );
            &&& input.method == method
            &&& input.url == url
            &&& input.headers == headers
            &&& input.body == body
            &&& input.unix_seconds == unix_seconds
            &&& input.region == region
            &&& input.service == service
            &&& input.access_key_id == credentials.access_key_id@
            &&& input.secret_access_key == credentials.secret_access_key@
            &&& credentials.session_token is None ==> input.session_token is None
            &&& credentials.session_token is Some ==> input.session_token == Some(
                credentials.session_token->0@,
            )
        }),
{
}

/// Two requests that differ in anything that is signed are different inputs of the signer.
pub proof fn law_different_requests_are_signed_differently(
    route: AwsRoute,
    credentials: SigningCredentials,
    unix_seconds: int,
    method: Seq<char>,
    url: Seq<char>,
    headers: Seq<(Seq<char>, Seq<char>)>,
    body: Seq<u8>,
    other_route: AwsRoute,
    other_credentials: SigningCredentials,
    other_seconds: int,
    other_method: Seq<char>,
    other_url: Seq<char>,
    other_headers: Seq<(Seq<char>, Seq<char>)>,
    other_body: Seq<u8>,
)
    requires
        input_for(route, credentials, unix_seconds, method, url, headers, body) == input_for(
            other_route,
            other_credentials,
            other_seconds,
            other_method,
            other_url,
            other_headers,
            other_body,
        ),
    ensures
        method == other_method,
        url == other_url,
        headers == other_headers,
        body == other_body,
        unix_seconds == other_seconds,
        route.region@ == other_route.region@,
        route.service@ == other_route.service@,
        credentials.access_key_id@ == other_credentials.access_key_id@,
        credentials.secret_access_key@ == other_credentials.secret_access_key@,
        credentials.session_token is Some == other_credentials.session_token is Some,
{
}

/// How requests are signed: the body's checksum goes into a header, the session token is
/// signed, the path is neither encoded again nor normalized, and all headers are signed.
pub proof fn law_how_requests_are_signed()
    ensures
        request_options().payload_checksum is XAmzSha256,
        request_options().session_tokens is Signed,
        request_options().percent_encoding is Single,
        request_options().path_normalization is Disabled,
        request_options().header_choice is All,
{
}

/// What the signer gives is handed on as it is: its headers, each name and value in order, or
/// its report behind the words for the step that failed.
pub proof fn law_signers_answer_is_handed_on(
    instructions: SigningInstructions,
    headers: Seq<(Seq<char>, Seq<char>)>,
    report: Seq<char>,
)
    ensures
        signed_headers(Ok(instructions)) == Ok::<
            Seq<(Seq<char>, Seq<char>)>,
            (SigningStage, Seq<char>),
        >(instruction_headers(instructions)),
        forall|stage: SigningStage| #[trigger]
            signed_headers(Err((stage, report))) == Err::<
                Seq<(Seq<char>, Seq<char>)>,
                (SigningStage, Seq<char>),
            >((stage, report)),
        signing_result(Ok(headers)) == Ok::<Seq<(Seq<char>, Seq<char>)>, Seq<char>>(headers),
        signing_result(Err((SigningStage::Params, report))) == Err::<
            Seq<(Seq<char>, Seq<char>)>,
            Seq<char>,
        >("failed to build SigV4 signing params: "@ + report),
        signing_result(Err((SigningStage::Request, report))) == Err::<
            Seq<(Seq<char>, Seq<char>)>,
            Seq<char>,
        >("failed to build signable request: "@ + report),
        signing_result(Err((SigningStage::Signature, report))) == Err::<
            Seq<(Seq<char>, Seq<char>)>,
            Seq<char>,
        >("SigV4 signing failed: "@ + report),
        signing_failure(SigningStage::Params, report) == "failed to build SigV4 signing params: "@
            + report,
        signing_failure(SigningStage::Request, report) == "failed to build signable request: "@
            + report,
        signing_failure(SigningStage::Signature, report) == "SigV4 signing failed: "@ + report,
{
}

/// A failure to get credentials is reported with the service of the route and the cause.
pub proof fn law_credential_report(service: Seq<char>, report: Seq<char>)
    ensures
        credential_failure(service, report) == "AWS credential resolution failed for route '"@
            + service + "': "@ + report,
{
}

/// Headers are seen as their names and values, all of them and in order, and an error as its
/// characters.
pub proof fn law_headers_are_seen_whole(
    owned: Vec<(String, String)>,
    borrowed: Vec<(&str, &str)>,
    message: String,
    i: int,
)
    ensures
        headers_or_error(Err(message)) == Err::<Seq<(Seq<char>, Seq<char>)>, Seq<char>>(message@),
        headers_or_error(Ok(owned)) is Ok,
        (headers_or_error(Ok(owned))->Ok_0).len() == owned@.len(),
        0 <= i < owned@.len() ==> (headers_or_error(Ok(owned))->Ok_0)[i] == (
            owned@[i].0@,
            owned@[i].1@,
        ),
        signable::owned_headers(owned@).len() == owned@.len(),
        0 <= i < owned@.len() ==> signable::owned_headers(owned@)[i] == (
            owned@[i].0@,
            owned@[i].1@,
        ),
        borrowed_headers(borrowed@).len() == borrowed@.len(),
        0 <= i < borrowed@.len() ==> borrowed_headers(borrowed@)[i] == (
            borrowed@[i].0@,
            borrowed@[i].1@,
        ),
{
}

/// A signature adds the date, the authorization and the checksum, and the session token
/// exactly where there is one.
pub proof fn law_headers_of_a_signature()
    ensures
        signature_header_names(request_options(), false) == seq![
            "x-amz-date"@,
            "authorization"@,
            "x-amz-content-sha256"@,
        ],
        signature_header_names(request_options(), true) == seq![
            "x-amz-date"@,
            "authorization"@,
            "x-amz-content-sha256"@,
            "x-amz-security-token"@,
        ],
{
}

/// What signing comes to is a signature of the request, with its date, its key, region and
/// service, every header of the request in its list, and its session token; or a report.
pub proof fn law_what_signing_comes_to(
    r: Result<Vec<(String, String)>, String>,
    url: Seq<u8>,
    input: SigningInput,
    i: int,
)
    requires
        is_signed(r, url, input),
    ensures
        r matches Ok(headers) ==> {
            &&& headers@.len() == (if input.session_token is Some {
                4int
            } else {
                3int
            })
            &&& headers@[0].0@ == "x-amz-date"@
            &&& headers@[1].0@ == "authorization"@
            &&& headers@[2].0@ == "x-amz-content-sha256"@
            &&& headers@[2].1@.len() == 64
            &&& input.session_token is Some ==> headers@[3].0@ == "x-amz-security-token"@
                && headers@[3].1@ == input.session_token->0
            &&& exists|y: int, m: int, d: int, names: Seq<char>, signature: Seq<char>|
                {
                    &&& #[trigger] dates::is_day(input.unix_seconds, y, m, d)
                    &&& headers@[0].1@ == dates::day_text(y, m, d) + dates::clock_text(
                        input.unix_seconds,
                    )
                    &&& headers@[1].1@ == #[trigger] authorization(
                        input,
                        dates::day_text(y, m, d),
                        names,
                        signature,
                    )
                    &&& signature.len() == 64
                    &&& 0 <= i < input.headers.len() ==> text::split(names, ';').contains(
                        signed_name(input.headers[i].0),
                    )
                }
        },
        r matches Err(message) ==> message@
            == "failed to build signable request: failed to create canonical request"@ || message@
            == "SigV4 signing failed: failed to create canonical request"@,
{
    reveal_strlit("failed to build signable request: failed to create canonical request");
    reveal_strlit("SigV4 signing failed: failed to create canonical request");
    reveal_strlit("failed to build signable request: ");
    reveal_strlit("SigV4 signing failed: ");
    reveal_strlit("failed to create canonical request");
    match r {
        Ok(headers) => {
            let seen = signable::owned_headers(headers@);
            let names = signable::names_of(seen);
            assert(names == signature_header_names(request_options(), input.session_token is Some));
            assert(names.len() == headers@.len());
            assert(names[0] == headers@[0].0@ && names[1] == headers@[1].0@ && names[2]
                == headers@[2].0@);
            if input.session_token is Some {
                assert(names[3] == headers@[3].0@);
                assert(seen.last() == seen[3]);
            }
            let (y, m, d) = choose|y: int, m: int, d: int|
                {
                    &&& #[trigger] dates::is_day(input.unix_seconds, y, m, d)
                    &&& seen[0].1 == dates::day_text(y, m, d) + dates::clock_text(
                        input.unix_seconds,
                    )
                    &&& is_authorization(
                        seen[1].1,
                        input,
                        request_options(),
                        dates::day_text(y, m, d),
                    )
                };
            let (list, signature) = choose|list: Seq<char>, signature: Seq<char>|
                {
                    &&& seen[1].1 == #[trigger] authorization(
                        input,
                        dates::day_text(y, m, d),
                        list,
                        signature,
                    )
                    &&& is_digest(signature)
                    &&& text::split(list, ';').no_duplicates()
                    &&& text::split(list, ';').to_set() == signed_names(
                        input,
                        request_options(),
                    ).to_set()
                };
            if 0 <= i < input.headers.len() {
                let name = signed_name(input.headers[i].0);
                let all = signed_names(input, request_options());
                assert(all[i] == name);
                assert(all.to_set().contains(name));
                assert(text::split(list, ';').to_set().contains(name));
            }
            assert(headers@[1].1@ == authorization(
                input,
                dates::day_text(y, m, d),
                list,
                signature,
            ));
        },
        Err(message) => {
            assert(signing_failure(
                SigningStage::Request,
                "failed to create canonical request"@,
            ) == "failed to build signable request: failed to create canonical request"@);
            assert(signing_failure(
                SigningStage::Signature,
                "failed to create canonical request"@,
            ) == "SigV4 signing failed: failed to create canonical request"@);
        },
    }
}

/// An authorization names the algorithm, the key, the day, the region and the service, and
/// then the signed headers and the signature.
pub proof fn law_authorization(
    input: SigningInput,
    day: Seq<char>,
    names: Seq<char>,
    signature: Seq<char>,
)
    ensures
        authorization(input, day, names, signature) == "AWS4-HMAC-SHA256 Credential="@
            + input.access_key_id + "/"@ + day + "/"@ + input.region + "/"@ + input.service
            + "/aws4_request, SignedHeaders="@ + names + ", Signature="@ + signature,
{
}

} // verus!
