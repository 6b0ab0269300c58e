use aws_credential_types::provider::SharedCredentialsProvider;
use aws_credential_types::Credentials;
use nono_core::aws::endpoints::{lookup_region, lookup_service, AWS_HOST_TO_SERVICE};
use nono_core::aws::provider::{
    get_or_build_provider, profile_key, ProviderCache, ProviderStep, DEFAULT_PROFILE_KEY,
};
use nono_core::aws::resolve::{resolve_region, resolve_service};
use nono_core::aws::route::AwsRoute;
use nono_core::aws::dates::{END_OF_DATES, START_OF_DATES};
use nono_core::aws::sign::{
    is_aws_header, sign_request, signing_outcome, SigningCredentials, SigningStage,
};
use nono_core::aws::signable::{
    can_sign, MAX_HEADERS, MAX_HEADER_NAMES, MAX_NAME_LEN, MAX_URL_LEN,
};

/// Every row in the table must have a corresponding test entry here.
/// Adding a new service row forces adding a test row.
#[test]
fn lookup_service_table() {
    let cases = [
        ("bedrock.us-east-1.amazonaws.com", "bedrock"),
        ("bedrock-runtime.us-east-1.amazonaws.com", "bedrock"),
        ("bedrock-agent.us-east-1.amazonaws.com", "bedrock"),
        ("bedrock-agent-runtime.us-east-1.amazonaws.com", "bedrock"),
        ("dynamodb.us-east-1.amazonaws.com", "dynamodb"),
        ("s3.us-east-1.amazonaws.com", "s3"),
        ("lambda.us-east-1.amazonaws.com", "lambda"),
        ("sqs.us-east-1.amazonaws.com", "sqs"),
        ("sns.us-east-1.amazonaws.com", "sns"),
        ("logs.us-east-1.amazonaws.com", "logs"),
        ("execute-api.us-east-1.amazonaws.com", "execute-api"),
        ("sts.amazonaws.com", "sts"),
        ("iam.amazonaws.com", "iam"),
        ("email.us-east-1.amazonaws.com", "ses"),
        ("ses.us-east-1.amazonaws.com", "ses"),
    ];
    for (host, expected_svc) in cases {
        let got = lookup_service(host);
        assert_eq!(
            got,
            Some(expected_svc),
            "lookup_service({host:?}) expected Some({expected_svc:?}), got {got:?}"
        );
    }
}

#[test]
fn lookup_service_unknown_host_returns_none() {
    assert_eq!(lookup_service("unknownsvc.us-east-1.amazonaws.com"), None);
    assert_eq!(lookup_service(""), None);
    assert_eq!(lookup_service("localhost"), None);
}

#[test]
fn lookup_region_standard_hosts() {
    assert_eq!(
        lookup_region("bedrock-runtime.us-east-1.amazonaws.com"),
        Some("us-east-1".to_string())
    );
    assert_eq!(
        lookup_region("s3.eu-west-2.amazonaws.com"),
        Some("eu-west-2".to_string())
    );
    assert_eq!(
        lookup_region("lambda.ap-southeast-1.amazonaws.com"),
        Some("ap-southeast-1".to_string())
    );
}

#[test]
fn lookup_region_global_services_return_none() {
    // Global services like IAM don't have a region in the hostname.
    // "amazonaws" doesn't match the region shape (no trailing digit).
    assert_eq!(lookup_region("iam.amazonaws.com"), None);
    assert_eq!(lookup_region("sts.amazonaws.com"), None);
}

#[test]
fn lookup_region_invalid_shape() {
    assert_eq!(lookup_region(""), None);
    assert_eq!(lookup_region("localhost"), None);
    // "UPPERCASE" is not a valid region (no uppercase in real regions)
    assert_eq!(lookup_region("s3.US-EAST-1.amazonaws.com"), None);
}

#[test]
fn explicit_region_wins() {
    let r = resolve_region(
        Some("eu-central-1"),
        "bedrock-runtime.us-east-1.amazonaws.com",
    );
    assert_eq!(r.unwrap(), "eu-central-1");
}

#[test]
fn region_parsed_from_host() {
    let r = resolve_region(None, "bedrock-runtime.us-east-1.amazonaws.com");
    assert_eq!(r.unwrap(), "us-east-1");
}

#[test]
fn region_auto_detect_fails_for_global_service() {
    // IAM has no region in the host; must supply explicit override.
    let r = resolve_region(None, "iam.amazonaws.com");
    assert!(r.is_err(), "expected error for global IAM host");
    let msg = r.unwrap_err();
    assert!(
        msg.contains("aws_auth.region"),
        "error should suggest aws_auth.region, got: {}",
        msg
    );
}

#[test]
fn region_empty_override_is_error() {
    let r = resolve_region(Some(""), "bedrock-runtime.us-east-1.amazonaws.com");
    assert!(r.is_err());
}

#[test]
fn explicit_service_wins() {
    let s = resolve_service(
        Some("my-service"),
        "bedrock-runtime.us-east-1.amazonaws.com",
    );
    assert_eq!(s.unwrap(), "my-service");
}

#[test]
fn service_looked_up_from_table() {
    let s = resolve_service(None, "bedrock-runtime.us-east-1.amazonaws.com");
    assert_eq!(s.unwrap(), "bedrock");
}

#[test]
fn service_unknown_host_returns_error() {
    let s = resolve_service(None, "unknownsvc.us-east-1.amazonaws.com");
    assert!(s.is_err());
    let msg = s.unwrap_err();
    assert!(
        msg.contains("aws_auth.service"),
        "error should suggest aws_auth.service, got: {}",
        msg
    );
}

#[test]
fn service_empty_override_is_error() {
    let s = resolve_service(Some(""), "bedrock-runtime.us-east-1.amazonaws.com");
    assert!(s.is_err());
}

#[test]
fn is_aws_header_matches_authorization() {
    assert!(is_aws_header("Authorization"));
    assert!(is_aws_header("authorization"));
    assert!(is_aws_header("AUTHORIZATION"));
}

#[test]
fn is_aws_header_matches_x_amz_prefix() {
    assert!(is_aws_header("X-Amz-Date"));
    assert!(is_aws_header("x-amz-date"));
    assert!(is_aws_header("x-amz-content-sha256"));
    assert!(is_aws_header("X-Amz-Security-Token"));
}

#[test]
fn is_aws_header_does_not_match_other_headers() {
    assert!(!is_aws_header("Content-Type"));
    assert!(!is_aws_header("Host"));
    assert!(!is_aws_header("Accept"));
    assert!(!is_aws_header("X-Custom-Header"));
}

#[test]
fn every_row_of_the_table_is_reached() {
    for (prefix, service) in AWS_HOST_TO_SERVICE {
        assert_eq!(lookup_service(prefix), Some(service));
        assert_eq!(lookup_service(&format!("{prefix}.anything")), Some(service));
    }
}

#[test]
fn service_is_matched_whole_and_in_lower_case() {
    assert_eq!(lookup_service("bedrockx.us-east-1.amazonaws.com"), None);
    assert_eq!(lookup_service("S3.us-east-1.amazonaws.com"), None);
    assert_eq!(lookup_service("bucket.s3.us-east-1.amazonaws.com"), None);
    assert_eq!(lookup_service(".s3"), None);
}

#[test]
fn region_needs_hyphen_and_digit() {
    assert_eq!(lookup_region("s3.useast1.amazonaws.com"), None);
    assert_eq!(lookup_region("s3.us-east.amazonaws.com"), None);
    assert_eq!(lookup_region("s3..amazonaws.com"), None);
    assert_eq!(lookup_region("s3.us_east-1.amazonaws.com"), None);
    assert_eq!(lookup_region("s3.-1.amazonaws.com"), Some("-1".to_string()));
    assert_eq!(lookup_region(".us-gov-west-1.amazonaws.com"), Some("us-gov-west-1".to_string()));
}

#[test]
fn region_needs_the_domain() {
    assert_eq!(lookup_region("s3.us-east-1.example.com"), None);
    assert_eq!(lookup_region("s3.us-east-1"), None);
    assert_eq!(lookup_region("s3.us-east-1."), None);
    assert_eq!(lookup_region("s3.us-east-1.amazonaws"), None);
    assert_eq!(lookup_region("s3.us-east-1.amazonaws.com."), None);
    assert_eq!(lookup_region("s3.us-east-1.amazonaws.com.evil.org"), None);
    assert_eq!(lookup_region("bucket.s3.us-east-1.amazonaws.com"), None);
    assert_eq!(lookup_region("s3.us-east-1.AMAZONAWS.COM"), None);
    assert!(resolve_region(None, "s3.us-east-1.example.com").is_err());
}

#[test]
fn refusals_are_worded_exactly() {
    assert_eq!(
        resolve_region(Some(""), "h").unwrap_err(),
        "aws_auth.region is set but empty — provide a region like \"us-east-1\" \
         or remove the field to use auto-detection"
    );
    assert_eq!(
        resolve_region(None, "iam.amazonaws.com").unwrap_err(),
        "could not auto-detect AWS region from upstream host 'iam.amazonaws.com'; \
         set aws_auth.region explicitly (e.g., \"us-east-1\")"
    );
    assert_eq!(
        resolve_service(Some(""), "h").unwrap_err(),
        "aws_auth.service is set but empty — provide a service name like \
         \"bedrock\" or \"s3\", or remove the field to use auto-detection"
    );
    assert_eq!(
        resolve_service(None, "h").unwrap_err(),
        "could not auto-detect AWS service name from upstream host 'h'; \
         set aws_auth.service explicitly (e.g., \"bedrock\", \"s3\")"
    );
}

#[test]
fn detected_region_resolves_to_itself() {
    let host = "sqs.eu-west-3.amazonaws.com";
    let region = resolve_region(None, host).unwrap();
    assert_eq!(resolve_region(Some(&region), "elsewhere").unwrap(), region);
    assert_eq!(lookup_region(&format!("x.{region}.amazonaws.com")), Some(region));
}

#[test]
fn aws_header_names_are_matched_up_to_case_only() {
    assert!(is_aws_header("x-amz-"));
    assert!(is_aws_header("X-AMZ-anything"));
    assert!(!is_aws_header("x-amz"));
    assert!(!is_aws_header("authorization2"));
    assert!(!is_aws_header("proxy-authorization"));
    assert!(!is_aws_header(""));
}

fn provider_of_keys() -> SharedCredentialsProvider {
    SharedCredentialsProvider::new(Credentials::new("AKIDEXAMPLE", "secret", None, None, "test"))
}

fn route(service: &str) -> AwsRoute {
    AwsRoute {
        upstream: format!("https://{service}.us-east-1.amazonaws.com"),
        region: "us-east-1".to_string(),
        service: service.to_string(),
        profile_key: DEFAULT_PROFILE_KEY.to_string(),
        provider: provider_of_keys(),
    }
}

fn keys(token: Option<&str>) -> SigningCredentials {
    SigningCredentials {
        access_key_id: "AKIDEXAMPLE".to_string(),
        secret_access_key: "wJalrXUtnFEMI".to_string(),
        session_token: token.map(|t| t.to_string()),
    }
}

fn header(name: &str, value: &str) -> (String, String) {
    (name.to_string(), value.to_string())
}

/// 2015-08-30 12:36:00 UTC.
const TIME: i64 = 1440938160;

const MODEL_URL: &str = "https://bedrock-runtime.us-east-1.amazonaws.com/model/x/invoke";

#[test]
fn signs_a_request() {
    let signed = sign_request(
        &route("bedrock"),
        Ok(keys(None)),
        TIME,
        "POST",
        MODEL_URL,
        &[header("Content-Type", "application/json")],
        b"{}",
    );
    assert_eq!(
        signed.unwrap(),
        vec![
            header("x-amz-date", "20150830T123600Z"),
            header(
                "authorization",
                "AWS4-HMAC-SHA256 \
                 Credential=AKIDEXAMPLE/20150830/us-east-1/bedrock/aws4_request, \
                 SignedHeaders=content-type;host;x-amz-content-sha256;x-amz-date, \
                 Signature=063c26e8e263fc4e71f24be8ba54232a5165cf4314c19ea760b2a0f053c85a8b"
            ),
            header(
                "x-amz-content-sha256",
                "44136fa355b3678a1146ad16f7e8649e94fb4fc21fe77e8310c060f61caaff8a"
            ),
        ]
    );
}

#[test]
fn signs_the_session_token() {
    let signed = sign_request(
        &route("bedrock"),
        Ok(keys(Some("token-1"))),
        TIME,
        "POST",
        MODEL_URL,
        &[header("content-type", "application/json")],
        b"{}",
    )
    .unwrap();
    assert_eq!(signed.len(), 4);
    assert_eq!(
        signed[1].1,
        "AWS4-HMAC-SHA256 \
         Credential=AKIDEXAMPLE/20150830/us-east-1/bedrock/aws4_request, \
         SignedHeaders=content-type;host;x-amz-content-sha256;x-amz-date;x-amz-security-token, \
         Signature=07c69663ca5edcc3649fedb5efbce5954c4f59bd09833d32d6b69353b5545052"
    );
    assert_eq!(signed[3], header("x-amz-security-token", "token-1"));
}

#[test]
fn signs_the_path_as_it_stands() {
    let signed = sign_request(
        &route("s3"),
        Ok(keys(None)),
        TIME,
        "GET",
        "https://s3.us-east-1.amazonaws.com/bucket//a/../b%20c",
        &[],
        b"",
    )
    .unwrap();
    assert_eq!(
        signed[1].1,
        "AWS4-HMAC-SHA256 \
         Credential=AKIDEXAMPLE/20150830/us-east-1/s3/aws4_request, \
         SignedHeaders=host;x-amz-content-sha256;x-amz-date, \
         Signature=d0a70e34e1f25b58b32512306a13e7178e627e00027a2c46dcd87d0f3bd8f8e5"
    );
}

#[test]
fn added_headers_are_stripped_from_the_next_request() {
    let signed = sign_request(
        &route("bedrock"),
        Ok(keys(Some("t"))),
        TIME,
        "GET",
        MODEL_URL,
        &[],
        b"",
    )
    .unwrap();
    for (name, _) in &signed {
        assert!(is_aws_header(name), "{name}");
    }
}

#[test]
fn credential_failure_is_reported() {
    let refused = sign_request(
        &route("bedrock"),
        Err("no keys".to_string()),
        TIME,
        "GET",
        "anything",
        &[],
        b"",
    );
    assert_eq!(
        refused.unwrap_err(),
        "AWS credential resolution failed for route 'bedrock': no keys"
    );
}

#[test]
fn signs_every_header_of_the_request() {
    let signed = sign_request(
        &route("bedrock"),
        Ok(keys(None)),
        TIME,
        "POST",
        MODEL_URL,
        &[
            header("User-Agent", "agent/1"),
            header("X-Amzn-Trace-Id", "t"),
            header("Transfer-Encoding", "chunked"),
        ],
        b"{}",
    )
    .unwrap();
    assert_eq!(
        signed[1].1,
        "AWS4-HMAC-SHA256 \
         Credential=AKIDEXAMPLE/20150830/us-east-1/bedrock/aws4_request, \
         SignedHeaders=host;transfer-encoding;user-agent;x-amz-content-sha256;x-amz-date;\
         x-amzn-trace-id, \
         Signature=9ca686e7651d2f716421e27762bb61e64eb1acef9eda723e7af2318a8ea8ae11"
    );
}

#[test]
fn signature_carries_its_date() {
    let dates = [
        (0, "19700101T000000Z"),
        (-1, "19691231T235959Z"),
        (951782400 + 3723, "20000229T010203Z"),
        (4107542400, "21000301T000000Z"),
        (START_OF_DATES, "16010101T000000Z"),
        (END_OF_DATES - 1, "99991231T235959Z"),
    ];
    for (time, date) in dates {
        let signed = sign_request(
            &route("bedrock"),
            Ok(keys(None)),
            time,
            "GET",
            MODEL_URL,
            &[],
            b"",
        )
        .unwrap();
        assert_eq!(signed[0], header("x-amz-date", date));
        let start = format!(
            "AWS4-HMAC-SHA256 Credential=AKIDEXAMPLE/{}/us-east-1/bedrock/aws4_request, \
             SignedHeaders=host;x-amz-content-sha256;x-amz-date, Signature=",
            &date[..8]
        );
        let signature = signed[1].1.strip_prefix(&start).unwrap();
        for digest in [signature, signed[2].1.as_str()] {
            assert_eq!(digest.len(), 64);
            assert!(digest.bytes().all(|b| matches!(b, b'0'..=b'9' | b'a'..=b'f')));
        }
    }
}

#[test]
fn kelvin_sign_is_signed_as_a_letter() {
    let headers = [header("\u{212a}ey", "v"), header("X-T", "caf\u{e9}\t")];
    let signed = sign_request(
        &route("s3"),
        Ok(keys(Some("t"))),
        TIME,
        "GET",
        MODEL_URL,
        &headers,
        b"",
    )
    .unwrap();
    assert!(signed[1].1.contains(
        " SignedHeaders=host;key;x-amz-content-sha256;x-amz-date;x-amz-security-token;x-t, "
    ));
}

#[test]
fn plain_urls_are_signed() {
    let urls = [
        "https://s3.us-east-1.amazonaws.com",
        "http://localhost/",
        "https://a?b",
        "https://a?",
        "https://a/b?c=d&e=%41%20+&&f?g",
        "https://a-b.C9/!$%&'()*+,-./:;=@[\\]^_|~",
        "https://a/%zz",
    ];
    for url in urls {
        assert!(can_sign(url, &[]), "{url}");
        let signed = sign_request(&route("s3"), Ok(keys(None)), TIME, "GET", url, &[], b"");
        assert!(signed.is_ok(), "{url}");
    }
}

#[test]
fn refused_session_token_is_reported() {
    for token in ["a\nb", "\u{7f}"] {
        let outcome = sign_request(
            &route("s3"),
            Ok(keys(Some(token))),
            TIME,
            "GET",
            MODEL_URL,
            &[],
            b"",
        );
        assert_eq!(
            outcome.unwrap_err(),
            "SigV4 signing failed: failed to create canonical request"
        );
    }
}

#[test]
fn unreadable_urls_are_reported() {
    let long = format!("https://e/{}", "a".repeat(MAX_URL_LEN));
    let urls = [
        "https://exa mple.com/",
        "not a url",
        "",
        "50%off",
        "a:b:c",
        "user@",
        "[::1",
        "::1]",
        "caf\u{e9}",
        "a|b",
        "example.com/path",
        "http:/x",
        "?x=y",
        "#",
        "https://e/<",
        "/a\tb",
        long.as_str(),
    ];
    for url in urls {
        assert!(can_sign(url, &[]), "{url}");
        let refused = sign_request(&route("s3"), Ok(keys(None)), TIME, "GET", url, &[], b"");
        assert_eq!(
            refused.unwrap_err(),
            "failed to build signable request: failed to create canonical request",
            "{url}"
        );
    }
}

#[test]
fn refused_header_is_reported_before_anything_else() {
    let refused_headers = [
        header("", "x"),
        header("bad name", "x"),
        header("x:", "y"),
        header("x", "a\nb"),
        header("x", "\u{7f}"),
        header("caf\u{e9}", "x"),
        header("\u{130}", "x"),
        header(&"a".repeat(MAX_NAME_LEN + 1), "x"),
    ];
    for refused in refused_headers {
        for url in ["example.com", "/path", "*", MODEL_URL] {
            let headers = [header("a", "b"), refused.clone()];
            assert!(can_sign(url, &headers));
            let outcome = sign_request(&route("s3"), Ok(keys(None)), TIME, "GET", url, &headers, b"");
            assert_eq!(
                outcome.unwrap_err(),
                "SigV4 signing failed: failed to create canonical request"
            );
        }
    }
}

#[test]
fn unusable_header_is_reported() {
    let refused = sign_request(
        &route("s3"),
        Ok(keys(None)),
        TIME,
        "GET",
        MODEL_URL,
        &[header("bad name", "x")],
        b"",
    );
    assert_eq!(
        refused.unwrap_err(),
        "SigV4 signing failed: failed to create canonical request"
    );
}

#[test]
fn each_step_of_signing_has_its_report() {
    let failed = |stage: SigningStage| signing_outcome(Err((stage, "why".to_string()))).unwrap_err();
    assert_eq!(
        failed(SigningStage::Params),
        "failed to build SigV4 signing params: why"
    );
    assert_eq!(
        failed(SigningStage::Request),
        "failed to build signable request: why"
    );
    assert_eq!(failed(SigningStage::Signature), "SigV4 signing failed: why");
    let headers = vec![header("a", "b")];
    assert_eq!(signing_outcome(Ok(headers.clone())).unwrap(), headers);
}

#[test]
fn can_sign_tells_what_the_signer_takes() {
    let host = [header("HOST", "example.com")];
    assert!(can_sign(MODEL_URL, &[]));
    assert!(!can_sign("example.com", &[]));
    assert!(!can_sign("example.com:443", &host));
    assert!(!can_sign("u%20v@[::1]:80", &[]));
    assert!(!can_sign("/path", &[]));
    assert!(!can_sign("/path", &[header("hosts", "h"), header("xhost", "h")]));
    assert!(can_sign("/path", &host));
    assert!(!can_sign("*", &[]));
    assert!(can_sign("*", &host));
    assert!(can_sign(&format!("/?{}", "a".repeat(MAX_URL_LEN - 3)), &host));
    assert!(!can_sign(&format!("/?{}", "a".repeat(MAX_URL_LEN - 2)), &host));
    assert!(!can_sign(&format!("https://e/?k={}", "+".repeat(MAX_URL_LEN / 3)), &[]));
    assert!(can_sign(&format!("https://e/#{}", "+".repeat(MAX_URL_LEN / 2)), &[]));
    assert!(!can_sign(&format!("https://e/?{}", "%ff".repeat(MAX_URL_LEN / 8)), &[]));
    assert!(!can_sign(&format!("/?a{}", "&b".repeat(MAX_URL_LEN / 3)), &host));
    let named = |count: usize| -> Vec<(String, String)> {
        (0..count).map(|i| (format!("h{i}"), "v".to_string())).collect()
    };
    assert!(can_sign(MODEL_URL, &named(MAX_HEADER_NAMES)));
    assert!(!can_sign(MODEL_URL, &named(MAX_HEADER_NAMES + 1)));
    assert!(can_sign(MODEL_URL, &vec![header("a", "b"); MAX_HEADERS]));
    assert!(!can_sign(MODEL_URL, &vec![header("a", "b"); MAX_HEADERS + 1]));
}

#[test]
fn signs_up_to_the_limits() {
    let path = format!("https://e/{}", "a".repeat(MAX_URL_LEN - 10));
    let no_path = format!("https://e?{}", "a".repeat(MAX_URL_LEN - 10));
    let flag = format!("/?{}", "a".repeat(MAX_URL_LEN - 3));
    let flags = format!("https://e/?{}", "a&".repeat(MAX_URL_LEN / 3 - 10));
    let spaces = format!("https://e/?k={}", "+".repeat(MAX_URL_LEN / 3 - 10));
    let signs = format!("https://e/?k=%{}", "=%zz?/:".repeat(3000));
    let bytes = format!("https://e/?%41={}", "%ff".repeat(MAX_URL_LEN / 9 - 10));
    let cut = format!("https://e/?k={}", "%e2%82".repeat(MAX_URL_LEN / 18 - 10));
    let chars = format!("https://e/?k={}", "%C3%a9".repeat(MAX_URL_LEN / 6 - 10));
    let more = format!("https://e/?k={}", "%e2%82%ac%F0%9f%98%80%20".repeat(2720));
    let empty = format!("/?{}", "&".repeat(MAX_URL_LEN - 2));
    let letters = format!("/?%6b={}", "%41%7e".repeat(MAX_URL_LEN / 6 - 2));
    let equals = format!("/?{}", "=&".repeat(MAX_URL_LEN / 2 - 2));
    let raw = format!("https://e/?k={}", "\u{e9}\u{20ac}".repeat(4000));
    let host = [header("Host", "example.com")];
    let named: Vec<(String, String)> =
        (0..MAX_HEADER_NAMES).map(|i| (format!("h{i}"), "v".to_string())).collect();
    let repeated = vec![header("a", "b"); MAX_HEADERS];
    let cases: [(&str, &[(String, String)]); 19] = [
        (&path, &[]),
        (&no_path, &[]),
        (&flag, &host),
        (&flags, &[]),
        (&spaces, &[]),
        (&signs, &[]),
        (&bytes, &[]),
        (&cut, &[]),
        (&chars, &[]),
        (&more, &[]),
        (&empty, &host),
        (&letters, &host),
        (&equals, &host),
        (&raw, &[]),
        ("https://e#f?x", &[]),
        ("/path?a=b", &host),
        ("*", &host),
        (MODEL_URL, &named),
        (MODEL_URL, &repeated),
    ];
    for (url, headers) in cases {
        assert!(can_sign(url, headers), "{}", &url[..url.len().min(30)]);
        let signed = sign_request(
            &route("s3"),
            Ok(keys(None)),
            END_OF_DATES - 1,
            "PUT",
            url,
            headers,
            b"body",
        )
        .unwrap();
        assert_eq!(signed[0], header("x-amz-date", "99991231T235959Z"));
    }
}

#[test]
fn route_is_shown_without_its_provider() {
    let fields = route("sqs").debug_fields();
    let expected = [
        ("upstream", "https://sqs.us-east-1.amazonaws.com"),
        ("region", "us-east-1"),
        ("service", "sqs"),
        ("profile_key", "<default>"),
        ("provider", "[SharedCredentialsProvider]"),
    ];
    assert_eq!(fields.len(), expected.len());
    for (field, (name, value)) in fields.iter().zip(expected) {
        assert_eq!(field.0, name);
        assert_eq!(field.1, value);
    }
}

#[test]
fn profile_key_is_the_name_or_the_default() {
    assert_eq!(profile_key(Some("work")), "work");
    assert_eq!(profile_key(Some("")), "");
    assert_eq!(profile_key(None), "<default>");
}

fn ready(step: ProviderStep) -> SharedCredentialsProvider {
    match step {
        ProviderStep::Ready(provider) => provider,
        ProviderStep::LoadDefaultChain => panic!("no provider"),
    }
}

#[test]
fn routes_of_one_profile_share_a_provider() {
    let mut cache = ProviderCache::new();
    let first = format!("{:?}", ready(get_or_build_provider(Some("work"), &mut cache)));
    assert!(first.contains("ProfileFileCredentialsProvider"));
    assert!(first.contains("\"work\""));
    let other = format!("{:?}", ready(get_or_build_provider(Some("home"), &mut cache)));
    assert!(other.contains("\"home\""));
    let again = format!("{:?}", ready(get_or_build_provider(Some("work"), &mut cache)));
    assert_eq!(again, first);
    assert_ne!(other, first);
}

#[test]
fn default_chain_is_loaded_once() {
    let mut cache = ProviderCache::new();
    assert!(matches!(
        get_or_build_provider(None, &mut cache),
        ProviderStep::LoadDefaultChain
    ));
    let provider = provider_of_keys();
    let shown = format!("{provider:?}");
    let stored = cache.store_default_chain(Some(provider)).unwrap();
    assert_eq!(format!("{stored:?}"), shown);
    let cached = ready(get_or_build_provider(None, &mut cache));
    assert_eq!(format!("{cached:?}"), shown);
}

#[test]
fn default_chain_without_a_provider_is_reported() {
    let mut cache = ProviderCache::new();
    assert_eq!(
        cache.store_default_chain(None).unwrap_err(),
        "default AWS credential chain yielded no credentials provider — \
         configure AWS_ACCESS_KEY_ID / AWS_SECRET_ACCESS_KEY or an AWS profile"
    );
    assert!(matches!(
        get_or_build_provider(None, &mut cache),
        ProviderStep::LoadDefaultChain
    ));
}
