//! The client: endpoint, region and optional signer, and what one attempt
//! of a call needs from them.
use vstd::prelude::*;
use crate::auth::{header_view, signed_request_headers, AwsV4Signer, Credential, Header, Timestamp};
use crate::config::Config;
use crate::error::S3VectorsError;
use crate::validation::{validate_bucket_name, validate_index_name, valid_bucket_name, valid_index_name};

verus! {

/// Most vectors that one put request may carry.
pub const MAX_BATCH_SIZE: usize = 500;

/// The service endpoint of a region.
pub open spec fn endpoint_for(region: Seq<char>) -> Seq<char> {
    "https://s3vectors."@ + region + ".api.aws"@
}

fn endpoint_text(region: &str) -> (r: String)
    ensures
        r@ == endpoint_for(region@),
{
    let mut r = String::from_str("https://s3vectors.");
    r.append(region);
    r.append(".api.aws");
    r
}

/// A client of the service in one region.  It has no derived `Debug`, which
/// would print the secret key: `debug_string` hides it.
#[derive(Clone)]
pub struct S3VectorsClient {
    endpoint: String,
    region: String,
    signer: Option<AwsV4Signer>,
}

/// The model of a client: endpoint, region, and the credential it signs
/// with, if any.
pub type ClientView = (Seq<char>, Seq<char>, Option<Credential>);

impl View for S3VectorsClient {
    type V = ClientView;

    closed spec fn view(&self) -> ClientView {
        (
            self.endpoint@,
            self.region@,
            match self.signer {
                Some(s) => Some(s@),
                None => None,
            },
        )
    }
}

impl S3VectorsClient {
    /// A client for `region` without credentials.
    pub fn new(region: &str) -> (r: Self)
        ensures
            r@ == (endpoint_for(region@), region@, None::<Credential>),
    {
        S3VectorsClient { endpoint: endpoint_text(region), region: region.to_string(), signer: None }
    }

    /// The region this client is configured for.
    pub fn region(&self) -> (r: &str)
        ensures
            r@ == self@.1,
    {
        self.region.as_str()
    }

    /// The endpoint that requests go to.
    pub fn endpoint(&self) -> (r: &str)
        ensures
            r@ == self@.0,
    {
        self.endpoint.as_str()
    }

    /// A description for logs: endpoint, region, and the signer with its
    /// keys hidden.
    pub fn debug_string(&self) -> (r: String)
        ensures
            r@ == "S3VectorsClient { endpoint: \""@ + self@.0 + "\", region: \""@ + self@.1
                + "\", signer: "@ + match self@.2 {
                Some(cred) => "Some("@ + crate::auth::signer_debug_text(cred) + ")"@,
                None => "None"@,
            } + " }"@,
    {
        let mut r = String::from_str("S3VectorsClient { endpoint: \"");
        r.append(self.endpoint.as_str());
        r.append("\", region: \"");
        r.append(self.region.as_str());
        r.append("\", signer: ");
        match &self.signer {
            Some(s) => {
                r.append("Some(");
                let d = s.debug_string();
                r.append(d.as_str());
                r.append(")");
            },
            None => r.append("None"),
        }
        r.append(" }");
        r
    }

    /// Whether credentials are configured.
    pub fn has_signer(&self) -> (r: bool)
        ensures
            r == (self@.2 is Some),
    {
        self.signer.is_some()
    }

    /// A client for `region` that signs with the given credentials.
    pub fn with_credentials(
        region: &str,
        access_key_id: String,
        secret_access_key: String,
        session_token: Option<String>,
    ) -> (r: Self)
        ensures
            r@ == (
                endpoint_for(region@),
                region@,
                Some(
                    (
                        access_key_id@,
                        secret_access_key@,
                        crate::auth::opt_text(session_token),
                        region@,
                    ),
                ),
            ),
    {
        S3VectorsClient {
            endpoint: endpoint_text(region),
            region: region.to_string(),
            signer: Some(
                AwsV4Signer::new(access_key_id, secret_access_key, session_token, region.to_string()),
            ),
        }
    }

    /// A client for `region` built from the configuration read from the
    /// environment: it signs where both keys are set.
    fn from_config_in(region: String, env: &Config) -> (r: Self)
        ensures
            r@.0 == endpoint_for(region@),
            r@.1 == region@,
            env.has_credentials_spec() ==> r@.2 == Some(
                (
                    env.aws_access_key_id->0@,
                    env.aws_secret_access_key->0@,
                    crate::auth::opt_text(env.aws_session_token),
                    region@,
                ),
            ),
            !env.has_credentials_spec() ==> r@.2 is None,
    {
        let signer = match (&env.aws_access_key_id, &env.aws_secret_access_key) {
            (Some(access_key), Some(secret_key)) => Some(
                AwsV4Signer::new(
                    access_key.clone(),
                    secret_key.clone(),
                    env.aws_session_token.clone(),
                    region.clone(),
                ),
            ),
            _ => None,
        };
        S3VectorsClient { endpoint: endpoint_text(region.as_str()), region, signer }
    }

    /// A client for the configured region, signing where both keys are set
    /// in `env`, the configuration read from the environment.
    pub fn from_env(env: &Config) -> (r: Result<Self, S3VectorsError>)
        ensures
            r matches Ok(c) && c@.1 == env.aws_region@ && c@.0 == endpoint_for(env.aws_region@) && (
            c@.2 is Some <==> env.has_credentials_spec()) && (env.has_credentials_spec() ==> c@.2
                == Some(
                (
                    env.aws_access_key_id->0@,
                    env.aws_secret_access_key->0@,
                    crate::auth::opt_text(env.aws_session_token),
                    env.aws_region@,
                ),
            )),
    {
        Ok(Self::from_config_in(env.aws_region.clone(), env))
    }

    /// As `from_env`, with `override_region` in place of the configured
    /// region where it is given.
    pub fn from_env_with_region(env: &Config, override_region: Option<&str>) -> (r: Result<
        Self,
        S3VectorsError,
    >)
        ensures
            ({
                let region = match override_region {
                    Some(o) => o@,
                    None => env.aws_region@,
                };
                r matches Ok(c) && c@.1 == region && c@.0 == endpoint_for(region) && (c@.2 is Some
                    <==> env.has_credentials_spec()) && (env.has_credentials_spec() ==> c@.2
                    == Some(
                    (
                        env.aws_access_key_id->0@,
                        env.aws_secret_access_key->0@,
                        crate::auth::opt_text(env.aws_session_token),
                        region,
                    ),
                ))
            }),
    {
        let region = match override_region {
            Some(o) => o.to_string(),
            None => env.aws_region.clone(),
        };
        Ok(Self::from_config_in(region, env))
    }

    /// The headers for one attempt of a call to the action at `path` with
    /// body `body`, signed at `now`; every attempt is signed anew.  Fails
    /// with `AuthRequired` where no credentials are configured.
    pub fn sign_attempt(&self, path: &str, body: &[u8], now: &Timestamp) -> (r: Result<
        Vec<Header>,
        S3VectorsError,
    >)
        requires
            now.wf(),
        ensures
            self@.2 is None ==> r matches Err(S3VectorsError::AuthRequired(_)),
            self@.2 matches Some(cred) ==> match signed_request_headers(
                cred,
                "POST"@,
                self@.0 + path@,
                Seq::empty(),
                body@,
                *now,
            ) {
                Some(h) => r matches Ok(out) && header_view(out@) == h,
                None => r matches Err(S3VectorsError::SigningError(_)),
            },
    {
        match &self.signer {
            None => Err(S3VectorsError::AuthRequired("No credentials configured".to_string())),
            Some(signer) => {
                let mut url = self.endpoint.clone();
                url.append(path);
                let none: Vec<Header> = Vec::new();
                proof {
                    assert(header_view(none@) =~= Seq::empty());
                    assert(crate::auth::distinct_names(header_view(none@)));
                }
                signer.sign_request("POST", url.as_str(), none, body, now)
            },
        }
    }
}

/// The bucket name, and the index name where there is one, follow the
/// naming rules.
pub open spec fn names_ok(bucket: Seq<char>, index: Option<Seq<char>>) -> bool {
    valid_bucket_name(bucket) && match index {
        Some(i) => valid_index_name(i),
        None => true,
    }
}

/// Checks the bucket name, and the index name where the operation has one,
/// before a call is made.
pub fn check_names(bucket: &str, index: Option<&str>) -> (r: Result<(), S3VectorsError>)
    ensures
        r is Ok <==> names_ok(bucket@, match index {
            Some(i) => Some(i@),
            None => None,
        }),
        r is Err ==> r matches Err(S3VectorsError::Validation(_)),
{
    match validate_bucket_name(bucket) {
        Err(m) => {
            return Err(S3VectorsError::Validation(m));
        },
        Ok(()) => {},
    }
    match index {
        Some(i) => match validate_index_name(i) {
            Err(m) => Err(S3VectorsError::Validation(m)),
            Ok(()) => Ok(()),
        },
        None => Ok(()),
    }
}

/// Checks the size of a batch of vectors to put: 1 to `MAX_BATCH_SIZE`.
pub fn check_batch_size(count: usize) -> (r: Result<(), S3VectorsError>)
    ensures
        r is Ok <==> 1 <= count <= MAX_BATCH_SIZE,
        r is Err ==> r matches Err(S3VectorsError::Validation(_)),
{
    if count == 0 {
        return Err(S3VectorsError::Validation("No vectors provided".to_string()));
    }
    if count > MAX_BATCH_SIZE {
        let mut m = String::from_str("Batch size ");
        crate::text::push_decimal(&mut m, count as u64);
        m.append(" exceeds maximum of 500");
        return Err(S3VectorsError::Validation(m));
    }
    Ok(())
}

/// Checks that a request names at least one vector key.
pub fn check_keys(count: usize) -> (r: Result<(), S3VectorsError>)
    ensures
        r is Ok <==> count >= 1,
        r is Err ==> r matches Err(S3VectorsError::Validation(_)),
{
    if count == 0 {
        return Err(S3VectorsError::Validation("No keys provided".to_string()));
    }
    Ok(())
}

} // verus!
