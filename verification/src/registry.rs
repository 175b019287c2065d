//! What a client of an image registry decides: which URL to ask, which
//! headers to send, what an answer means. The requests themselves are made
//! by the program that embeds the library.

use vstd::prelude::*;
use vstd::string::*;

use crate::table::Table;

verus! {

/// The data of an image or module.
#[derive(Debug)]
pub struct ImageData {
    /// The content of the image or module.
    pub content: Vec<u8>,
    /// The digest of the image or module.
    pub digest: Option<String>,
}

/// The protocol that the client speaks to the registry.
#[derive(Clone, Copy, Debug, PartialEq, Eq, Structural)]
pub enum ClientProtocol {
    Http,
    Https,
}

impl Default for ClientProtocol {
    fn default() -> (p: ClientProtocol)
        ensures
            p == ClientProtocol::Https,
    {
        ClientProtocol::Https
    }
}

/// The URL scheme of a protocol.
pub open spec fn scheme(protocol: ClientProtocol) -> Seq<char> {
    match protocol {
        ClientProtocol::Https => "https"@,
        ClientProtocol::Http => "http"@,
    }
}

impl ClientProtocol {
    /// The URL scheme of the protocol.
    pub fn as_str(&self) -> (s: &'static str)
        ensures
            s@ == scheme(*self),
    {
        match self {
            ClientProtocol::Https => "https",
            ClientProtocol::Http => "http",
        }
    }
}

/// The configuration of a client.
#[derive(Clone, Copy, Debug)]
pub struct ClientConfig {
    /// The protocol that the client speaks.
    pub protocol: ClientProtocol,
}

impl Default for ClientConfig {
    fn default() -> (c: ClientConfig)
        ensures
            c.protocol == ClientProtocol::Https,
    {
        ClientConfig { protocol: ClientProtocol::Https }
    }
}

/// A token that a registry granted.
#[derive(Debug)]
pub struct RegistryToken {
    /// The token's text.
    pub token: String,
}

impl RegistryToken {
    /// The value of the authorization header that presents the token.
    pub fn bearer_token(&self) -> (header: String)
        ensures
            header@ == "Bearer "@ + self.token@,
    {
        String::from_str("Bearer ").concat(self.token.as_str())
    }
}

/// A reference to an image: the registry, the repository, and a tag or a
/// digest where the reference gives one.
#[derive(Debug)]
pub struct Reference {
    pub registry: String,
    pub repository: String,
    pub tag: Option<String>,
    pub digest: Option<String>,
}

/// The version of an image that a reference points at: its digest where it
/// has one, else its tag, else `latest`.
pub open spec fn version_of(reference: Reference) -> Seq<char> {
    match reference.digest {
        Some(digest) => digest@,
        None => match reference.tag {
            Some(tag) => tag@,
            None => "latest"@,
        },
    }
}

/// The URL of the registry's version check.
pub open spec fn version_url(protocol: ClientProtocol, registry: Seq<char>) -> Seq<char> {
    scheme(protocol) + "://"@ + registry + "/v2/"@
}

/// The URL of an image's manifest.
pub open spec fn manifest_url(protocol: ClientProtocol, reference: Reference) -> Seq<char> {
    scheme(protocol) + "://"@ + reference.registry@ + "/v2/"@ + reference.repository@
        + "/manifests/"@ + version_of(reference)
}

/// The URL of a blob.
pub open spec fn blob_url(
    protocol: ClientProtocol,
    registry: Seq<char>,
    repository: Seq<char>,
    digest: Seq<char>,
) -> Seq<char> {
    scheme(protocol) + "://"@ + registry + "/v2/"@ + repository + "/blobs/"@ + digest
}

/// The permission that a pull asks for.
pub open spec fn pull_scope(repository: Seq<char>) -> Seq<char> {
    "repository:"@ + repository + ":pull"@
}

/// The media types that the client accepts for a manifest.
pub open spec fn accepted_manifests() -> Seq<char> {
    "application/vnd.docker.distribution.manifest.v2+json,application/vnd.docker.distribution.manifest.list.v2+json,application/vnd.oci.image.manifest.v1+json"@
}

/// A challenge by which a registry asks for a bearer token.
#[derive(Debug)]
pub struct BearerChallenge {
    pub realm: Option<String>,
    pub service: Option<String>,
    pub scope: Option<String>,
}

/// The request for a token that answers a challenge.
#[derive(Debug)]
pub struct TokenRequest {
    /// The URL to ask.
    pub realm: String,
    /// The value of the query parameter `service`.
    pub service: String,
    /// The value of the query parameter `scope`.
    pub scope: String,
}

/// Why the client could not go on.
#[derive(Debug)]
pub enum RegistryError {
    /// The challenge names no realm to ask for a token.
    ChallengeWithoutRealm,
    /// The challenge names no service to ask the token for.
    ChallengeWithoutService,
    /// The registry refused the token request; holds its answer.
    AuthenticationFailed(String),
    /// The answer carried no digest header.
    NoDigestHeader,
    /// The registry reported an error of the client; holds the URL.
    ClientError(String),
    /// The registry failed; holds the URL.
    ServerError(String),
    /// The registry answered with a status that means neither; holds it.
    UnexpectedStatus(u16),
}

/// What the status of an answer means.
#[derive(Clone, Copy, Debug, PartialEq, Eq, Structural)]
pub enum StatusClass {
    /// 200: the answer holds what was asked for.
    Success,
    /// 400 to 499: the request was wrong.
    ClientError,
    /// 500 to 599: the registry failed.
    ServerError,
    /// Anything else.
    Unexpected,
}

/// What the status of an answer means.
pub open spec fn class_of(status: u16) -> StatusClass {
    if status == 200 {
        StatusClass::Success
    } else if 400 <= status < 500 {
        StatusClass::ClientError
    } else if 500 <= status < 600 {
        StatusClass::ServerError
    } else {
        StatusClass::Unexpected
    }
}

/// Classifies the status of an answer.
pub fn classify_status(status: u16) -> (class: StatusClass)
    ensures
        class == class_of(status),
{
    if status == 200 {
        StatusClass::Success
    } else if 400 <= status && status < 500 {
        StatusClass::ClientError
    } else if 500 <= status && status < 600 {
        StatusClass::ServerError
    } else {
        StatusClass::Unexpected
    }
}

/// The error that an answer to a manifest request stands for, if its status
/// is not 200.
pub fn manifest_failure(status: u16, url: &str) -> (failure: Option<RegistryError>)
    ensures
        match class_of(status) {
            StatusClass::Success => failure is None,
            StatusClass::ClientError => failure is Some && failure->Some_0 is ClientError
                && failure->Some_0->ClientError_0@ == url@,
            StatusClass::ServerError => failure is Some && failure->Some_0 is ServerError
                && failure->Some_0->ServerError_0@ == url@,
            StatusClass::Unexpected => failure == Some(RegistryError::UnexpectedStatus(status)),
        },
{
    match classify_status(status) {
        StatusClass::Success => None,
        StatusClass::ClientError => Some(RegistryError::ClientError(url.to_owned())),
        StatusClass::ServerError => Some(RegistryError::ServerError(url.to_owned())),
        StatusClass::Unexpected => Some(RegistryError::UnexpectedStatus(status)),
    }
}

/// The digest that an answer names in its digest header.
pub fn digest_header_value(header: Option<String>) -> (digest: Result<String, RegistryError>)
    ensures
        match header {
            Some(value) => digest == Ok::<String, RegistryError>(value),
            None => digest == Err::<String, RegistryError>(RegistryError::NoDigestHeader),
        },
{
    match header {
        Some(value) => Ok(value),
        None => Err(RegistryError::NoDigestHeader),
    }
}

/// The content of an image whose layers have been pulled: the last layer,
/// or nothing where the image has no layer.
pub open spec fn content_of(layers: Seq<Vec<u8>>) -> Seq<u8> {
    if layers.len() == 0 {
        Seq::empty()
    } else {
        layers.last()@
    }
}

/// The data of an image from its layers, in the manifest's order, and the
/// manifest's digest.
pub fn image_data(layers: Vec<Vec<u8>>, digest: String) -> (data: ImageData)
    ensures
        data.content@ == content_of(layers@),
        data.digest == Some(digest),
{
    let mut layers = layers;
    let content = match layers.pop() {
        Some(last) => last,
        None => Vec::new(),
    };
    ImageData { content, digest: Some(digest) }
}

/// The request that answers a challenge for the image's repository: the
/// challenge's realm and service, and the permission to pull.
pub fn token_request(challenge: &BearerChallenge, repository: &str) -> (request: Result<
    TokenRequest,
    RegistryError,
>)
    ensures
        match (challenge.realm, challenge.service) {
            (Some(realm), Some(service)) => request is Ok && request->Ok_0.realm@ == realm@
                && request->Ok_0.service@ == service@ && request->Ok_0.scope@ == pull_scope(
                repository@,
            ),
            (None, _) => request is Err && request->Err_0 is ChallengeWithoutRealm,
            (Some(_), None) => request is Err && request->Err_0 is ChallengeWithoutService,
        },
{
    match &challenge.realm {
        None => Err(RegistryError::ChallengeWithoutRealm),
        Some(realm) => match &challenge.service {
            None => Err(RegistryError::ChallengeWithoutService),
            Some(service) => Ok(
                TokenRequest {
                    realm: realm.clone(),
                    service: service.clone(),
                    scope: String::from_str("repository:").concat(repository).concat(":pull"),
                },
            ),
        },
    }
}

/// A header of a request: its name and its value.
pub type Header = (String, String);

/// Headers as plain characters.
pub open spec fn header_views(headers: Seq<Header>) -> Seq<(Seq<char>, Seq<char>)> {
    headers.map_values(|h: Header| (h.0@, h.1@))
}

/// The client: its configuration and the tokens it holds, by registry.
pub struct Client {
    config: ClientConfig,
    tokens: Table<String, RegistryToken>,
}

impl Default for Client {
    fn default() -> (client: Client)
        ensures
            client.protocol() == ClientProtocol::Https,
            client.tokens() == Map::<Seq<char>, RegistryToken>::empty(),
    {
        Client { config: ClientConfig { protocol: ClientProtocol::Https }, tokens: Table::new() }
    }
}

impl Client {
    /// The protocol that the client speaks.
    pub closed spec fn protocol(&self) -> ClientProtocol {
        self.config.protocol
    }

    /// The tokens that the client holds, by registry.
    pub closed spec fn tokens(&self) -> Map<Seq<char>, RegistryToken> {
        self.tokens@
    }

    /// A client with the given configuration and no tokens.
    pub fn new(config: ClientConfig) -> (client: Client)
        ensures
            client.protocol() == config.protocol,
            client.tokens() == Map::<Seq<char>, RegistryToken>::empty(),
    {
        Client { config, tokens: Table::new() }
    }

    /// Whether the client has to authenticate before it asks the image's
    /// registry: it has where it holds no token of that registry.
    pub fn needs_auth(&self, image: &Reference) -> (r: bool)
        ensures
            r == !self.tokens().contains_key(image.registry@),
    {
        !self.tokens.contains_key(&image.registry)
    }

    /// The URL of the version check of the image's registry, which tells
    /// where to authenticate.
    pub fn to_v2_url(&self, image: &Reference) -> (url: String)
        ensures
            url@ == version_url(self.protocol(), image.registry@),
    {
        String::from_str(self.config.protocol.as_str()).concat("://").concat(
            image.registry.as_str(),
        ).concat("/v2/")
    }

    /// The URL of the image's manifest.
    pub fn to_v2_manifest_url(&self, reference: &Reference) -> (url: String)
        ensures
            url@ == manifest_url(self.protocol(), *reference),
    {
        let version: &str = match &reference.digest {
            Some(digest) => digest.as_str(),
            None => match &reference.tag {
                Some(tag) => tag.as_str(),
                None => "latest",
            },
        };
        String::from_str(self.config.protocol.as_str()).concat("://").concat(
            reference.registry.as_str(),
        ).concat("/v2/").concat(reference.repository.as_str()).concat("/manifests/").concat(version)
    }

    /// The URL of a blob of a repository.
    pub fn to_v2_blob_url(&self, registry: &str, repository: &str, digest: &str) -> (url: String)
        ensures
            url@ == blob_url(self.protocol(), registry@, repository@, digest@),
    {
        String::from_str(self.config.protocol.as_str()).concat("://").concat(registry).concat(
            "/v2/",
        ).concat(repository).concat("/blobs/").concat(digest)
    }

    /// The headers of a request about the image: what the client accepts,
    /// and the token of the image's registry where the client holds one.
    pub fn auth_headers(&self, image: &Reference) -> (headers: Vec<Header>)
        ensures
            header_views(headers@) == if self.tokens().contains_key(image.registry@) {
                seq![
                    ("Accept"@, accepted_manifests()),
                    ("Authorization"@, "Bearer "@ + self.tokens()[image.registry@].token@),
                ]
            } else {
                seq![("Accept"@, accepted_manifests())]
            },
    {
        let mut headers: Vec<Header> = Vec::new();
        headers.push(
            (
                String::from_str("Accept"),
                String::from_str(
                    "application/vnd.docker.distribution.manifest.v2+json,application/vnd.docker.distribution.manifest.list.v2+json,application/vnd.oci.image.manifest.v1+json",
                ),
            ),
        );
        match self.tokens.get(&image.registry) {
            Some(token) => {
                headers.push((String::from_str("Authorization"), token.bearer_token()));
                assert(header_views(headers@) =~= seq![
                    ("Accept"@, accepted_manifests()),
                    ("Authorization"@, "Bearer "@ + self.tokens()[image.registry@].token@),
                ]);
            },
            None => {
                assert(header_views(headers@) =~= seq![("Accept"@, accepted_manifests())]);
            },
        }
        headers
    }

    /// Takes the registry's answer to a token request. With status 200 and
    /// a token, the client holds the token for the image's registry from
    /// now on; any other answer is an error that carries the answer's text,
    /// and changes nothing.
    pub fn store_token(
        &mut self,
        image: &Reference,
        status: u16,
        token: Option<RegistryToken>,
        text: String,
    ) -> (r: Result<(), RegistryError>)
        ensures
            final(self).protocol() == old(self).protocol(),
            match token {
                Some(t) if status == 200 => r is Ok && final(self).tokens() == old(
                    self,
                ).tokens().insert(image.registry@, t),
                _ => r == Err::<(), RegistryError>(RegistryError::AuthenticationFailed(text))
                    && final(self).tokens() == old(self).tokens(),
            },
    {
        if status == 200 {
            match token {
                Some(t) => {
                    self.tokens.insert(image.registry.clone(), t);
                    Ok(())
                },
                None => Err(RegistryError::AuthenticationFailed(text)),
            }
        } else {
            Err(RegistryError::AuthenticationFailed(text))
        }
    }
}

} // verus!
