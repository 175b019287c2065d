use krustlet::registry::{
    classify_status, digest_header_value, image_data, manifest_failure, token_request,
    BearerChallenge, Client, ClientConfig, ClientProtocol, Reference, RegistryError,
    RegistryToken, StatusClass,
};

const DIGEST: &str = "sha256:51d9b231d5129e3ffc267c9d455c49d789bf3167b611a07ab6e4b3304c96b0e7";

fn hello(tag: Option<&str>, digest: Option<&str>) -> Reference {
    Reference {
        registry: "webassembly.azurecr.io".to_owned(),
        repository: "hello-wasm".to_owned(),
        tag: tag.map(|t| t.to_owned()),
        digest: digest.map(|d| d.to_owned()),
    }
}

#[test]
fn to_v2_blob_url() {
    let blob_url =
        Client::default().to_v2_blob_url("webassembly.azurecr.io", "hello-wasm", "sha256:deadbeef");
    assert_eq!(
        blob_url,
        "https://webassembly.azurecr.io/v2/hello-wasm/blobs/sha256:deadbeef"
    )
}

#[test]
fn to_v2_manifest() {
    let cases = [
        (hello(None, None), "https://webassembly.azurecr.io/v2/hello-wasm/manifests/latest"),
        (hello(Some("v1"), None), "https://webassembly.azurecr.io/v2/hello-wasm/manifests/v1"),
        (
            hello(None, Some(DIGEST)),
            "https://webassembly.azurecr.io/v2/hello-wasm/manifests/sha256:51d9b231d5129e3ffc267c9d455c49d789bf3167b611a07ab6e4b3304c96b0e7",
        ),
        (
            hello(Some("v1"), Some(DIGEST)),
            "https://webassembly.azurecr.io/v2/hello-wasm/manifests/sha256:51d9b231d5129e3ffc267c9d455c49d789bf3167b611a07ab6e4b3304c96b0e7",
        ),
    ];
    for (reference, expected_uri) in cases {
        assert_eq!(Client::default().to_v2_manifest_url(&reference), expected_uri);
    }
}

#[test]
fn protocol_decides_the_scheme() {
    assert_eq!(ClientProtocol::default(), ClientProtocol::Https);
    assert_eq!(ClientConfig::default().protocol, ClientProtocol::Https);
    assert_eq!(ClientProtocol::Https.as_str(), "https");
    assert_eq!(ClientProtocol::Http.as_str(), "http");
    let plain = Client::new(ClientConfig { protocol: ClientProtocol::Http });
    assert_eq!(plain.to_v2_url(&hello(None, None)), "http://webassembly.azurecr.io/v2/");
    assert_eq!(plain.to_v2_blob_url("r", "p", "d"), "http://r/v2/p/blobs/d");
    assert_eq!(
        Client::default().to_v2_url(&hello(None, None)),
        "https://webassembly.azurecr.io/v2/"
    );
}

#[test]
fn bearer_token_header() {
    let token = RegistryToken { token: "abc".to_owned() };
    assert_eq!(token.bearer_token(), "Bearer abc");
    assert_eq!(RegistryToken { token: String::new() }.bearer_token(), "Bearer ");
}

#[test]
fn headers_carry_the_token_once_it_is_held() {
    let image = hello(Some("v1"), None);
    let mut client = Client::default();
    assert!(client.needs_auth(&image));
    let accept = "application/vnd.docker.distribution.manifest.v2+json,application/vnd.docker.distribution.manifest.list.v2+json,application/vnd.oci.image.manifest.v1+json";
    assert_eq!(
        client.auth_headers(&image),
        vec![("Accept".to_owned(), accept.to_owned())]
    );
    let stored = client.store_token(
        &image,
        200,
        Some(RegistryToken { token: "secret-token".to_owned() }),
        "{}".to_owned(),
    );
    assert!(stored.is_ok());
    assert!(!client.needs_auth(&image));
    assert_eq!(
        client.auth_headers(&image),
        vec![
            ("Accept".to_owned(), accept.to_owned()),
            ("Authorization".to_owned(), "Bearer secret-token".to_owned())
        ]
    );
    let mut elsewhere = hello(None, None);
    elsewhere.registry = "example.com".to_owned();
    assert!(client.needs_auth(&elsewhere));
    assert_eq!(client.auth_headers(&elsewhere).len(), 1);
}

#[test]
fn a_refused_token_request_is_an_error() {
    let image = hello(None, None);
    let mut client = Client::default();
    match client.store_token(&image, 401, None, "denied".to_owned()) {
        Err(RegistryError::AuthenticationFailed(reason)) => assert_eq!(reason, "denied"),
        other => panic!("expected a failed authentication, got {:?}", other),
    }
    let with_token = client.store_token(
        &image,
        403,
        Some(RegistryToken { token: "t".to_owned() }),
        "forbidden".to_owned(),
    );
    assert!(matches!(with_token, Err(RegistryError::AuthenticationFailed(_))));
    assert!(matches!(
        client.store_token(&image, 200, None, "not json".to_owned()),
        Err(RegistryError::AuthenticationFailed(_))
    ));
    assert!(client.needs_auth(&image));
}

#[test]
fn token_requests_answer_the_challenge() {
    let challenge = BearerChallenge {
        realm: Some("https://auth.example.com/token".to_owned()),
        service: Some("registry.example.com".to_owned()),
        scope: None,
    };
    let request = token_request(&challenge, "hello-wasm").unwrap();
    assert_eq!(request.realm, "https://auth.example.com/token");
    assert_eq!(request.service, "registry.example.com");
    assert_eq!(request.scope, "repository:hello-wasm:pull");
    let no_realm = BearerChallenge { realm: None, service: None, scope: None };
    assert!(matches!(
        token_request(&no_realm, "r"),
        Err(RegistryError::ChallengeWithoutRealm)
    ));
    let no_service = BearerChallenge { realm: Some("x".to_owned()), service: None, scope: None };
    assert!(matches!(
        token_request(&no_service, "r"),
        Err(RegistryError::ChallengeWithoutService)
    ));
}

#[test]
fn statuses_are_classified() {
    assert_eq!(classify_status(200), StatusClass::Success);
    for s in [400u16, 401, 404, 499] {
        assert_eq!(classify_status(s), StatusClass::ClientError);
    }
    for s in [500u16, 503, 599] {
        assert_eq!(classify_status(s), StatusClass::ServerError);
    }
    for s in [0u16, 100, 201, 204, 301, 399, 600, 999, u16::MAX] {
        assert_eq!(classify_status(s), StatusClass::Unexpected);
    }
    assert!(manifest_failure(200, "u").is_none());
    match manifest_failure(404, "https://r/v2/p/manifests/latest") {
        Some(RegistryError::ClientError(url)) => assert_eq!(url, "https://r/v2/p/manifests/latest"),
        other => panic!("expected a client error, got {:?}", other),
    }
    match manifest_failure(500, "u") {
        Some(RegistryError::ServerError(url)) => assert_eq!(url, "u"),
        other => panic!("expected a server error, got {:?}", other),
    }
    assert!(matches!(manifest_failure(302, "u"), Some(RegistryError::UnexpectedStatus(302))));
}

#[test]
fn digest_header() {
    assert_eq!(digest_header_value(Some(DIGEST.to_owned())).unwrap(), DIGEST);
    assert!(matches!(digest_header_value(None), Err(RegistryError::NoDigestHeader)));
}

#[test]
fn image_content_is_the_last_layer() {
    let data = image_data(vec![vec![1, 2], vec![3], vec![4, 5, 6]], DIGEST.to_owned());
    assert_eq!(data.content, vec![4, 5, 6]);
    assert_eq!(data.digest, Some(DIGEST.to_owned()));
    let empty = image_data(Vec::new(), "d".to_owned());
    assert!(empty.content.is_empty());
    assert_eq!(empty.digest, Some("d".to_owned()));
}
