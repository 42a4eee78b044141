//! Storage on S3.

use opendal::services::S3;
use opendal::Error as OpendalError;
use opendal::Operator;
use vstd::prelude::*;

use crate::error;
use crate::error::{Error, ErrorCode, ErrorView, Result};
use crate::fs;
use crate::fs::{build_s3_settings, S3Settings, S3StorageConfig};

verus! {

/// Where errors say that they come from if they come from here.
pub const HERE: &'static str = "src/s3.rs";

/// `opendal::services::S3`, a client that is being set up.
#[verifier::external_type_specification]
#[verifier::external_body]
pub struct ExS3(S3);

/// `opendal::Operator`, a client that can be used.
#[verifier::external_type_specification]
#[verifier::external_body]
pub struct ExOperator(Operator);

/// `opendal::Error`, carried as a cause and never looked into.
#[verifier::external_type_specification]
#[verifier::external_body]
pub struct ExOpendalError(OpendalError);

/// What an S3 client is told.
#[verifier::ext_equal]
pub struct S3Setup {
    pub bucket: Seq<char>,
    pub root: Option<Seq<char>>,
    pub endpoint: Option<Seq<char>>,
    pub region: Option<Seq<char>>,
    pub access_key_id: Option<Seq<char>>,
    pub secret_access_key: Option<Seq<char>>,
    pub session_token: Option<Seq<char>>,
    pub disable_config_load: bool,
    pub disable_ec2_metadata: bool,
    pub skip_signature: bool,
    pub enable_virtual_host_style: bool,
    /// Whether it is told nothing else.
    pub nothing_else: bool,
}

/// A client that has been told nothing.
pub open spec fn untold() -> S3Setup {
    S3Setup {
        bucket: Seq::empty(),
        root: None,
        endpoint: None,
        region: None,
        access_key_id: None,
        secret_access_key: None,
        session_token: None,
        disable_config_load: false,
        disable_ec2_metadata: false,
        skip_signature: false,
        enable_virtual_host_style: false,
        nothing_else: true,
    }
}

/// A text, or `before` where it is empty.
pub open spec fn unless_empty(text: Seq<char>, before: Option<Seq<char>>) -> Option<Seq<char>> {
    if text.len() == 0 {
        before
    } else {
        Some(text)
    }
}

/// A text without the slashes it ends in.
pub open spec fn without_trailing_slashes(text: Seq<char>) -> Seq<char>
    decreases text.len(),
{
    if text.len() > 0 && text.last() == '/' {
        without_trailing_slashes(text.drop_last())
    } else {
        text
    }
}

/// What a client has been told so far.
pub uninterp spec fn setup_of(client: S3) -> S3Setup;

/// `S3::default`: a client that has been told nothing.
#[verifier::external_body]
fn new_client() -> (r: S3)
    ensures
        setup_of(r) == untold(),
{
    S3::default()
}

/// `S3::bucket` sets the bucket.
pub assume_specification[ S3::bucket ](client: S3, bucket: &str) -> (r: S3)
    ensures
        setup_of(r) == (S3Setup { bucket: bucket@, ..setup_of(client) }),
;

/// `S3::root` sets the root, to none where it is empty.
pub assume_specification[ S3::root ](client: S3, root: &str) -> (r: S3)
    ensures
        setup_of(r) == (S3Setup { root: unless_empty(root@, None), ..setup_of(client) }),
;

/// `S3::endpoint` sets the endpoint without the slashes it ends in, and does
/// nothing where it is empty.
pub assume_specification[ S3::endpoint ](client: S3, endpoint: &str) -> (r: S3)
    ensures
        setup_of(r) == (S3Setup {
            endpoint: if endpoint@.len() == 0 {
                setup_of(client).endpoint
            } else {
                Some(without_trailing_slashes(endpoint@))
            },
            ..setup_of(client)
        }),
;

/// `S3::region` sets the region, and does nothing where it is empty.
pub assume_specification[ S3::region ](client: S3, region: &str) -> (r: S3)
    ensures
        setup_of(r) == (S3Setup {
            region: unless_empty(region@, setup_of(client).region),
            ..setup_of(client)
        }),
;

/// `S3::access_key_id` sets the key's identifier, and does nothing where it is
/// empty.
pub assume_specification[ S3::access_key_id ](client: S3, v: &str) -> (r: S3)
    ensures
        setup_of(r) == (S3Setup {
            access_key_id: unless_empty(v@, setup_of(client).access_key_id),
            ..setup_of(client)
        }),
;

/// `S3::secret_access_key` sets the secret, and does nothing where it is empty.
pub assume_specification[ S3::secret_access_key ](client: S3, v: &str) -> (r: S3)
    ensures
        setup_of(r) == (S3Setup {
            secret_access_key: unless_empty(v@, setup_of(client).secret_access_key),
            ..setup_of(client)
        }),
;

/// `S3::session_token` sets the token, and does nothing where it is empty.
pub assume_specification[ S3::session_token ](client: S3, token: &str) -> (r: S3)
    ensures
        setup_of(r) == (S3Setup {
            session_token: unless_empty(token@, setup_of(client).session_token),
            ..setup_of(client)
        }),
;

/// `S3::disable_config_load`: no credentials out of the environment or files.
pub assume_specification[ S3::disable_config_load ](client: S3) -> (r: S3)
    ensures
        setup_of(r) == (S3Setup { disable_config_load: true, ..setup_of(client) }),
;

/// `S3::disable_ec2_metadata`: no credentials from the machine's metadata.
pub assume_specification[ S3::disable_ec2_metadata ](client: S3) -> (r: S3)
    ensures
        setup_of(r) == (S3Setup { disable_ec2_metadata: true, ..setup_of(client) }),
;

/// `S3::skip_signature`: requests go unsigned.
pub assume_specification[ S3::skip_signature ](client: S3) -> (r: S3)
    ensures
        setup_of(r) == (S3Setup { skip_signature: true, ..setup_of(client) }),
;

/// `S3::enable_virtual_host_style`: the bucket goes into the host's name.
pub assume_specification[ S3::enable_virtual_host_style ](client: S3) -> (r: S3)
    ensures
        setup_of(r) == (S3Setup { enable_virtual_host_style: true, ..setup_of(client) }),
;

/// `opendal::install_default` makes the process ready for HTTP, the first time
/// that it is called.
pub assume_specification[ opendal::install_default ]()
;

/// What an operator on S3 was built with.
pub uninterp spec fn operator_setup(operator: Operator) -> S3Setup;

/// Whether the bucket can be addressed: it has a name, which holds no dot where
/// it goes into the host's name.
pub open spec fn addressable(setup: S3Setup) -> bool {
    setup.bucket.len() > 0 && !(setup.enable_virtual_host_style && setup.bucket.contains('.'))
}

/// Whether the bucket is a directory bucket, which more is asked of.
pub open spec fn is_directory_bucket(setup: S3Setup) -> bool {
    setup.bucket.len() >= 6 && setup.bucket.skip(setup.bucket.len() - 6) == "--x-s3"@
}

/// Whether an S3 client can be built on a directory bucket: its name, the region and
/// the endpoint go together.
pub uninterp spec fn directory_bucket_fits(setup: S3Setup) -> bool;

/// Whether what a client has been told decides if it can be built: it knows its
/// region, loads no configuration, and has been told nothing but what is listed.
pub open spec fn decides(setup: S3Setup) -> bool {
    setup.region is Some && setup.disable_config_load && setup.nothing_else
}

/// Whether a client can be built where what it has been told decides.
pub open spec fn can_be_built(setup: S3Setup) -> bool {
    addressable(setup) && (is_directory_bucket(setup) ==> directory_bucket_fits(setup))
}

/// `opendal::Operator::new` on an S3 client. A bucket that cannot be addressed is
/// an error. Of a client that has been told a region and to load no configuration,
/// and nothing but what [`S3Setup`] lists, what it was told decides: it can be built
/// on any other bucket but a directory bucket, and on that where OpenDAL finds that
/// it fits. Without a region the environment decides.
#[verifier::external_body]
fn new_operator(client: S3) -> (r: std::result::Result<Operator, OpendalError>)
    ensures
        r is Ok ==> addressable(setup_of(client)),
        decides(setup_of(client)) && !is_directory_bucket(setup_of(client)) ==> (r is Ok
            <==> addressable(setup_of(client))),
        decides(setup_of(client)) && is_directory_bucket(setup_of(client)) && addressable(
            setup_of(client),
        ) ==> (r is Ok <==> directory_bucket_fits(setup_of(client))),
        r matches Ok(operator) ==> operator_setup(operator) == setup_of(client),
{
    Operator::new(client)
}

/// A text that was given and is not empty.
pub open spec fn given(text: Option<String>) -> Option<Seq<char>> {
    match text {
        Some(text) => unless_empty(text@, None),
        None => None,
    }
}

/// What a client is told for a configuration that can be used. Nothing comes from
/// anywhere else, and without a key requests go unsigned.
pub open spec fn s3_setup(config: S3StorageConfig) -> S3Setup {
    S3Setup {
        bucket: config.bucket@,
        root: given(config.root),
        endpoint: match config.endpoint {
            Some(endpoint) => Some(
                without_trailing_slashes(fs::endpoint_with_scheme(endpoint@, config.use_ssl)),
            ),
            None => None,
        },
        region: given(config.region),
        access_key_id: given(config.key_id),
        secret_access_key: given(config.secret),
        session_token: given(config.session_token),
        disable_config_load: true,
        disable_ec2_metadata: true,
        skip_signature: config.key_id is None,
        enable_virtual_host_style: config.virtual_host_style,
        nothing_else: true,
    }
}

/// Tells a client what its settings are.
fn client_of(settings: &S3Settings) -> (r: S3)
    ensures
        setup_of(r) == (S3Setup {
            bucket: settings.bucket@,
            root: given(settings.root),
            endpoint: match settings.endpoint {
                Some(endpoint) => if endpoint@.len() == 0 {
                    None
                } else {
                    Some(without_trailing_slashes(endpoint@))
                },
                None => None,
            },
            region: given(settings.region),
            access_key_id: match settings.credentials {
                Some(credentials) => unless_empty(credentials.key_id@, None),
                None => None,
            },
            secret_access_key: match settings.credentials {
                Some(credentials) => unless_empty(credentials.secret@, None),
                None => None,
            },
            session_token: match settings.credentials {
                Some(credentials) => given(credentials.session_token),
                None => None,
            },
            disable_config_load: true,
            disable_ec2_metadata: true,
            skip_signature: settings.credentials is None,
            enable_virtual_host_style: settings.virtual_host_style,
            nothing_else: true,
        }),
{
    let mut client = new_client().bucket(
        settings.bucket.as_str(),
    ).disable_config_load().disable_ec2_metadata();
    if let Some(root) = &settings.root {
        client = client.root(root.as_str());
    }
    if let Some(endpoint) = &settings.endpoint {
        client = client.endpoint(endpoint.as_str());
    }
    if let Some(region) = &settings.region {
        client = client.region(region.as_str());
    }
    if let Some(credentials) = &settings.credentials {
        client = client.access_key_id(credentials.key_id.as_str()).secret_access_key(
            credentials.secret.as_str(),
        );
        if let Some(session_token) = &credentials.session_token {
            client = client.session_token(session_token.as_str());
        }
    } else {
        client = client.skip_signature();
    }
    if settings.virtual_host_style {
        client = client.enable_virtual_host_style();
    }
    client
}

/// The error for storage that could not be set up.
pub open spec fn is_setup_failure(e: ErrorView) -> bool {
    e.source is Some && e == (ErrorView {
        source: e.source,
        ..error::plain_error(ErrorCode::Io, "failed to initialize OpenDAL S3 storage"@, HERE@)
    })
}

/// Sets up storage on S3. The configuration is checked first; what can still fail
/// after that is OpenDAL's to say.
pub fn build_s3_operator(config: S3StorageConfig) -> (r: Result<Operator>)
    ensures
        fs::s3_complaint(config) matches Some(complaint) ==> (r matches Err(e) && e@
            == error::invalid_argument_error(complaint, fs::HERE@)),
        r matches Ok(operator) ==> operator_setup(operator) == s3_setup(config) && addressable(
            s3_setup(config),
        ),
        fs::s3_complaint(config) is None && s3_setup(config).region is Some ==> (r is Ok
            <==> can_be_built(s3_setup(config))),
        fs::s3_complaint(config) is None ==> (r matches Err(e) ==> is_setup_failure(e@)),
{
    let settings = match build_s3_settings(config) {
        Ok(settings) => settings,
        Err(error) => {
            return Err(error);
        },
    };
    // Static libraries do not reliably run OpenDAL's process constructor.
    opendal::install_default();
    let client = client_of(&settings);
    proof {
        if config.endpoint is Some {
            lemma_scheme(config.endpoint->0@, config.use_ssl);
        }
        assert(setup_of(client) =~= s3_setup(config));
    }
    match new_operator(client) {
        Ok(operator) => Ok(operator),
        Err(source) => Err(
            Error::io_with_source(
                "failed to initialize OpenDAL S3 storage".to_string(),
                source,
                HERE,
            ),
        ),
    }
}

proof fn lemma_scheme(endpoint: Seq<char>, use_ssl: bool)
    ensures
        fs::endpoint_with_scheme(endpoint, use_ssl).len() > 0,
{
    reveal_strlit("://");
    reveal_strlit("https://");
    reveal_strlit("http://");
}

/// A client is told what was configured: the bucket, and each text that is given and
/// not empty. It signs exactly if there is a key, and takes nothing from elsewhere.
pub proof fn clients_are_told_what_was_configured(config: S3StorageConfig, text: Seq<char>)
    ensures
        ({
            let setup = s3_setup(config);
            &&& setup.bucket == config.bucket@
            &&& setup.enable_virtual_host_style == config.virtual_host_style
            &&& setup.disable_config_load && setup.disable_ec2_metadata && setup.nothing_else
            &&& setup.skip_signature <==> config.key_id is None
            &&& text.len() > 0 ==> {
                &&& setup.root == Some(text) <==> config.root is Some && config.root->0@ == text
                &&& setup.region == Some(text) <==> config.region is Some && config.region->0@
                    == text
                &&& setup.access_key_id == Some(text) <==> config.key_id is Some
                    && config.key_id->0@ == text
                &&& setup.secret_access_key == Some(text) <==> config.secret is Some
                    && config.secret->0@ == text
                &&& setup.session_token == Some(text) <==> config.session_token is Some
                    && config.session_token->0@ == text
            }
            &&& setup.root != Some(Seq::<char>::empty())
            &&& setup.region != Some(Seq::<char>::empty())
            &&& setup.endpoint is Some <==> config.endpoint is Some
        }),
{
}

/// The endpoint that a client is told is the configured one with its scheme and without
/// the slashes it ends in.
pub proof fn endpoints_end_in_no_slash(text: Seq<char>)
    ensures
        ({
            let cut = without_trailing_slashes(text);
            &&& cut.len() > 0 ==> cut.last() != '/'
            &&& cut.len() <= text.len()
            &&& cut == text.take(cut.len() as int)
            &&& forall|i: int| cut.len() <= i < text.len() ==> #[trigger] text[i] == '/'
        }),
    decreases text.len(),
{
    let cut = without_trailing_slashes(text);
    if text.len() > 0 && text.last() == '/' {
        let less = text.drop_last();
        endpoints_end_in_no_slash(less);
        assert(cut =~= text.take(cut.len() as int));
        assert forall|i: int| cut.len() <= i < text.len() implies #[trigger] text[i] == '/' by {
            if i < less.len() {
                assert(less[i] == text[i]);
            }
        }
    } else {
        assert(cut =~= text.take(cut.len() as int));
    }
}

/// A client that knows its region can be built on every bucket with a name, but for one
/// with a dot in it that goes into the host's name, and for a directory bucket that does
/// not fit.
pub proof fn ordinary_buckets_can_be_used(config: S3StorageConfig)
    requires
        config.bucket@.len() > 0,
        !(config.virtual_host_style && config.bucket@.contains('.')),
        config.bucket@.len() < 6 || config.bucket@.skip(config.bucket@.len() - 6) != "--x-s3"@,
    ensures
        can_be_built(s3_setup(config)),
        config.region is Some && config.region->0@.len() > 0 ==> decides(s3_setup(config)),
{
}

} // verus!
