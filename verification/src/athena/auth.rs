//! From a profile to the options of an Athena connection.

use crate::json::opt;
use crate::number::{decimal, decimal_of, parse_u64, unsigned};
use crate::text::same;
use vstd::prelude::*;

verus! {

pub const DEFAULT_CATALOG: &'static str = "awsdatacatalog";

pub const DEFAULT_WORK_GROUP: &'static str = "primary";

pub const DEFAULT_ROLE_SESSION_NAME: &'static str = "dbt-athena";

pub const DEFAULT_ROLE_DURATION_SECONDS: u32 = 3600;

pub const DEFAULT_NUM_RETRIES: u32 = 5;

pub const DEFAULT_NUM_ICEBERG_RETRIES: u32 = 3;

// ---------------------------------------------------------------------------
// Profiles and options
// ---------------------------------------------------------------------------

/// A field of a profile.
#[derive(Debug)]
pub struct ProfileField {
    pub name: String,
    /// Its text, where it was given as text.
    pub string: Option<String>,
    /// Its text, where it was given as text, a number or a boolean.
    pub shown: Option<String>,
}

/// The fields of a profile; a name occurs once.
#[derive(Debug)]
pub struct AdapterConfig {
    pub fields: Vec<ProfileField>,
}

/// The place of a field, from a place on.
pub open spec fn field_from(fields: Seq<ProfileField>, name: Seq<char>, i: int) -> Option<
    ProfileField,
>
    decreases fields.len() - i,
{
    if i < 0 || i >= fields.len() {
        None
    } else if fields[i].name@ == name {
        Some(fields[i])
    } else {
        field_from(fields, name, i + 1)
    }
}

pub open spec fn names(config: AdapterConfig, name: Seq<char>) -> bool {
    field_from(config.fields@, name, 0) is Some
}

/// The text of a field that was given as text.
pub open spec fn text(config: AdapterConfig, name: Seq<char>) -> Option<Seq<char>> {
    match field_from(config.fields@, name, 0) {
        Some(f) => opt(f.string),
        None => None,
    }
}

/// The text of a field that was given as text, a number or a boolean.
pub open spec fn scalar(config: AdapterConfig, name: Seq<char>) -> Option<Seq<char>> {
    match field_from(config.fields@, name, 0) {
        Some(f) => opt(f.shown),
        None => None,
    }
}

pub open spec fn or(a: Option<Seq<char>>, b: Seq<char>) -> Seq<char> {
    match a {
        Some(s) => s,
        None => b,
    }
}

impl AdapterConfig {
    fn field<'a>(&'a self, name: &str) -> (r: Option<&'a ProfileField>)
        ensures
            match (r, field_from(self.fields@, name@, 0)) {
                (Some(f), Some(g)) => *f == g,
                (None, None) => true,
                _ => false,
            },
    {
        let mut i: usize = 0;
        while i < self.fields.len()
            invariant
                i <= self.fields.len(),
                field_from(self.fields@, name@, 0) == field_from(self.fields@, name@, i as int),
            decreases self.fields.len() - i,
        {
            if same(self.fields[i].name.as_str(), name) {
                return Some(&self.fields[i]);
            }
            i += 1;
        }
        None
    }

    pub fn contains_key(&self, name: &str) -> (r: bool)
        ensures
            r == names(*self, name@),
    {
        self.field(name).is_some()
    }

    pub fn get_str(&self, name: &str) -> (r: Option<String>)
        ensures
            opt(r) == text(*self, name@),
    {
        match self.field(name) {
            Some(f) => match &f.string {
                Some(s) => Some(s.clone()),
                None => None,
            },
            None => None,
        }
    }

    pub fn get_string(&self, name: &str) -> (r: Option<String>)
        ensures
            opt(r) == scalar(*self, name@),
    {
        match self.field(name) {
            Some(f) => match &f.shown {
                Some(s) => Some(s.clone()),
                None => None,
            },
            None => None,
        }
    }
}

/// The options that the driver reads.
#[derive(Debug, Clone, Copy, PartialEq, Eq, Structural)]
pub enum AthenaOption {
    AuthType,
    AccessKeyId,
    SecretAccessKey,
    SessionToken,
    ProfileName,
    Region,
    S3StagingDir,
    Catalog,
    Schema,
    WorkGroup,
    RoleArn,
    RoleExternalId,
    RoleSessionName,
    RoleDuration,
    EndpointUrl,
    PollInterval,
    MaxAttempts,
    IcebergCommitRetries,
}

/// The options of a connection, in the order in which they were set.
#[derive(Debug)]
pub struct DatabaseBuilder {
    pub options: Vec<(AthenaOption, String)>,
}

pub open spec fn options_view(options: Seq<(AthenaOption, String)>) -> Seq<
    (AthenaOption, Seq<char>),
> {
    options.map_values(|o: (AthenaOption, String)| (o.0, o.1@))
}

pub type Options = Seq<(AthenaOption, Seq<char>)>;

impl View for DatabaseBuilder {
    type V = Seq<(AthenaOption, Seq<char>)>;

    open spec fn view(&self) -> Seq<(AthenaOption, Seq<char>)> {
        options_view(self.options@)
    }
}

impl DatabaseBuilder {
    pub fn new() -> (r: DatabaseBuilder)
        ensures
            r@ == Seq::<(AthenaOption, Seq<char>)>::empty(),
    {
        let r = DatabaseBuilder { options: Vec::new() };
        assert(r@ =~= Seq::empty());
        r
    }

    pub fn with_named_option(&mut self, option: AthenaOption, value: &str)
        ensures
            final(self)@ == old(self)@.push((option, value@)),
    {
        let ghost prior = self@;
        self.options.push((option, value.to_owned()));
        assert(self@ =~= prior.push((option, value@)));
    }

    /// The value of an option, where it was set.
    pub fn option(&self, option: AthenaOption) -> (r: Option<String>)
        ensures
            opt(r) == option_from(self@, option, 0),
    {
        let mut i: usize = 0;
        while i < self.options.len()
            invariant
                i <= self.options.len(),
                option_from(self@, option, 0) == option_from(self@, option, i as int),
            decreases self.options.len() - i,
        {
            assert(self@[i as int] == (self.options@[i as int].0, self.options@[i as int].1@));
            if self.options[i].0 == option {
                return Some(self.options[i].1.clone());
            }
            i += 1;
        }
        None
    }
}

/// The value of an option, from a place on.
pub open spec fn option_from(options: Options, option: AthenaOption, i: int) -> Option<Seq<char>>
    decreases options.len() - i,
{
    if i < 0 || i >= options.len() {
        None
    } else if options[i].0 == option {
        Some(options[i].1)
    } else {
        option_from(options, option, i + 1)
    }
}

/// A profile that cannot be used.
#[derive(Debug)]
pub struct AuthError {
    pub message: String,
}

impl AuthError {
    pub fn config(message: String) -> (r: AuthError)
        ensures
            r.message@ == message@,
    {
        AuthError { message }
    }

    pub fn msg<'a>(&'a self) -> (r: &'a str)
        ensures
            r@ == self.message@,
    {
        self.message.as_str()
    }
}

// ---------------------------------------------------------------------------
// Credentials
// ---------------------------------------------------------------------------

/// How a connection authenticates.
#[derive(Debug)]
pub enum AthenaAuthIR {
    Iam,
    AccessKey { access_key_id: String, secret_access_key: String },
    /// Static keys plus a session token (STS-issued temporary credentials).
    TemporaryCredentials {
        access_key_id: String,
        secret_access_key: String,
        session_token: String,
    },
    Profile { profile_name: String },
}

pub enum AuthView {
    Iam,
    AccessKey(Seq<char>, Seq<char>),
    TemporaryCredentials(Seq<char>, Seq<char>, Seq<char>),
    Profile(Seq<char>),
}

impl View for AthenaAuthIR {
    type V = AuthView;

    open spec fn view(&self) -> AuthView {
        match self {
            AthenaAuthIR::Iam => AuthView::Iam,
            AthenaAuthIR::AccessKey { access_key_id, secret_access_key } => AuthView::AccessKey(
                access_key_id@,
                secret_access_key@,
            ),
            AthenaAuthIR::TemporaryCredentials {
                access_key_id,
                secret_access_key,
                session_token,
            } => AuthView::TemporaryCredentials(
                access_key_id@,
                secret_access_key@,
                session_token@,
            ),
            AthenaAuthIR::Profile { profile_name } => AuthView::Profile(profile_name@),
        }
    }
}

/// The options by which a connection authenticates.
pub open spec fn auth_options(auth: AuthView) -> Options {
    match auth {
        AuthView::Iam => Seq::empty().push((AthenaOption::AuthType, "iam"@)),
        AuthView::AccessKey(id, secret) => Seq::empty().push(
            (AthenaOption::AuthType, "access_key"@),
        ).push((AthenaOption::AccessKeyId, id)).push((AthenaOption::SecretAccessKey, secret)),
        AuthView::TemporaryCredentials(id, secret, token) => Seq::empty().push(
            (AthenaOption::AuthType, "access_key"@),
        ).push((AthenaOption::AccessKeyId, id)).push((AthenaOption::SecretAccessKey, secret)).push(
            (AthenaOption::SessionToken, token),
        ),
        AuthView::Profile(name) => Seq::empty().push((AthenaOption::AuthType, "profile"@)).push(
            (AthenaOption::ProfileName, name),
        ),
    }
}

impl AthenaAuthIR {
    pub fn apply(self, builder: &mut DatabaseBuilder)
        ensures
            final(builder)@ == old(builder)@ + auth_options(self@),
    {
        let ghost prior = builder@;
        let ghost options = auth_options(self@);
        match self {
            AthenaAuthIR::Iam => {
                builder.with_named_option(AthenaOption::AuthType, "iam");
            },
            AthenaAuthIR::AccessKey { access_key_id, secret_access_key } => {
                builder.with_named_option(AthenaOption::AuthType, "access_key");
                builder.with_named_option(AthenaOption::AccessKeyId, access_key_id.as_str());
                builder.with_named_option(
                    AthenaOption::SecretAccessKey,
                    secret_access_key.as_str(),
                );
            },
            AthenaAuthIR::TemporaryCredentials {
                access_key_id,
                secret_access_key,
                session_token,
            } => {
                builder.with_named_option(AthenaOption::AuthType, "access_key");
                builder.with_named_option(AthenaOption::AccessKeyId, access_key_id.as_str());
                builder.with_named_option(
                    AthenaOption::SecretAccessKey,
                    secret_access_key.as_str(),
                );
                builder.with_named_option(AthenaOption::SessionToken, session_token.as_str());
            },
            AthenaAuthIR::Profile { profile_name } => {
                builder.with_named_option(AthenaOption::AuthType, "profile");
                builder.with_named_option(AthenaOption::ProfileName, profile_name.as_str());
            },
        }
        assert(builder@ =~= prior + options);
    }
}

/// How a profile authenticates, by the credentials that it holds, or why it cannot be used.
pub open spec fn auth(config: AdapterConfig) -> Result<AuthView, Seq<char>> {
    if names(config, "lf_tags_database"@) {
        Err(
            "Athena profile field 'lf_tags_database' is not yet supported by the dbt Athena backend; please remove it from your profile."@,
        )
    } else {
        match text(config, "aws_access_key_id"@) {
            Some(id) => if id.len() == 0 {
                Err("Athena 'aws_access_key_id' must not be empty"@)
            } else {
                match text(config, "aws_secret_access_key"@) {
                    None => Err(
                        "Athena auth requires 'aws_secret_access_key' when 'aws_access_key_id' is set"@,
                    ),
                    Some(secret) => if secret.len() == 0 {
                        Err("Athena 'aws_secret_access_key' must not be empty"@)
                    } else {
                        match text(config, "aws_session_token"@) {
                            Some(token) if token.len() > 0 => Ok(
                                AuthView::TemporaryCredentials(id, secret, token),
                            ),
                            _ => Ok(AuthView::AccessKey(id, secret)),
                        }
                    },
                }
            },
            None => match text(config, "aws_profile_name"@) {
                Some(name) => if name.len() == 0 {
                    Err("Athena 'aws_profile_name' must not be empty"@)
                } else {
                    Ok(AuthView::Profile(name))
                },
                None => Ok(AuthView::Iam),
            },
        }
    }
}

/// Profile fields that are not honored are refused, whatever they hold.
fn reject_unsupported_fields(config: &AdapterConfig) -> (r: Result<(), AuthError>)
    ensures
        match r {
            Ok(_) => !names(*config, "lf_tags_database"@),
            Err(e) => names(*config, "lf_tags_database"@) && e.message@
                == "Athena profile field 'lf_tags_database' is not yet supported by the dbt Athena backend; please remove it from your profile."@,
        },
{
    if config.contains_key("lf_tags_database") {
        return Err(
            AuthError::config(
                "Athena profile field 'lf_tags_database' is not yet supported by the dbt Athena backend; please remove it from your profile.".to_owned(),
            ),
        );
    }
    Ok(())
}

/// The path is inferred from which credential fields are set: a key with a session token,
/// a key alone, a named profile, or else the default chain.
pub fn parse_auth(config: &AdapterConfig) -> (r: Result<AthenaAuthIR, AuthError>)
    ensures
        match (r, auth(*config)) {
            (Ok(a), Ok(b)) => a@ == b,
            (Err(e), Err(f)) => e.message@ == f,
            _ => false,
        },
{
    if let Err(e) = reject_unsupported_fields(config) {
        return Err(e);
    }
    if let Some(access_key_id) = config.get_str("aws_access_key_id") {
        if access_key_id.as_str().is_empty() {
            return Err(
                AuthError::config("Athena 'aws_access_key_id' must not be empty".to_owned()),
            );
        }
        let secret_access_key = match config.get_str("aws_secret_access_key") {
            Some(s) => s,
            None => {
                return Err(
                    AuthError::config(
                        "Athena auth requires 'aws_secret_access_key' when 'aws_access_key_id' is set".to_owned(),
                    ),
                );
            },
        };
        if secret_access_key.as_str().is_empty() {
            return Err(
                AuthError::config("Athena 'aws_secret_access_key' must not be empty".to_owned()),
            );
        }
        if let Some(session_token) = config.get_str("aws_session_token") {
            if !session_token.as_str().is_empty() {
                return Ok(
                    AthenaAuthIR::TemporaryCredentials {
                        access_key_id,
                        secret_access_key,
                        session_token,
                    },
                );
            }
        }
        return Ok(AthenaAuthIR::AccessKey { access_key_id, secret_access_key });
    }
    if let Some(profile_name) = config.get_str("aws_profile_name") {
        if profile_name.as_str().is_empty() {
            return Err(
                AuthError::config("Athena 'aws_profile_name' must not be empty".to_owned()),
            );
        }
        return Ok(AthenaAuthIR::Profile { profile_name });
    }
    Ok(AthenaAuthIR::Iam)
}

// ---------------------------------------------------------------------------
// Connection settings
// ---------------------------------------------------------------------------

/// A non-negative integer profile field, given as a number or as text.
pub open spec fn count(config: AdapterConfig, field: Seq<char>) -> Result<Option<int>, Seq<char>> {
    match scalar(config, field) {
        None => Ok(None),
        Some(value) => match unsigned(value) {
            Some(n) if n <= u32::MAX => Ok(Some(n)),
            _ => Err(
                "Athena '"@ + field + "' must be a non-negative integer, got '"@ + value + "'"@,
            ),
        },
    }
}

fn get_count(config: &AdapterConfig, field: &str) -> (r: Result<Option<u32>, AuthError>)
    ensures
        match (r, count(*config, field@)) {
            (Ok(Some(n)), Ok(Some(m))) => n == m,
            (Ok(None), Ok(None)) => true,
            (Err(e), Err(f)) => e.message@ == f,
            _ => false,
        },
{
    let value = match config.get_string(field) {
        Some(v) => v,
        None => {
            return Ok(None);
        },
    };
    match parse_u64(value.as_str()) {
        Some(n) => {
            if n <= u32::MAX as u64 {
                return Ok(Some(n as u32));
            }
        },
        None => {},
    }
    Err(
        AuthError::config(
            "Athena '".to_owned().concat(field).concat(
                "' must be a non-negative integer, got '",
            ).concat(value.as_str()).concat("'"),
        ),
    )
}

/// What a profile has to name, or why it cannot be used.
pub open spec fn base_options(config: AdapterConfig) -> Result<Options, Seq<char>> {
    match (
        text(config, "region_name"@),
        text(config, "s3_staging_dir"@),
        text(config, "schema"@),
    ) {
        (None, _, _) => Err("Athena requires 'region_name' in profile configuration"@),
        (_, None, _) => Err("Athena requires 's3_staging_dir' in profile configuration"@),
        (_, _, None) => Err("Athena requires 'schema' in profile configuration"@),
        (Some(region), Some(staging), Some(schema)) => Ok(
            Seq::empty().push((AthenaOption::Region, region)).push(
                (AthenaOption::S3StagingDir, staging),
            ).push(
                (
                    AthenaOption::Catalog,
                    match text(config, "database"@) {
                        Some(c) => c,
                        None => or(text(config, "catalog"@), "awsdatacatalog"@),
                    },
                ),
            ).push((AthenaOption::Schema, schema)).push(
                (AthenaOption::WorkGroup, or(text(config, "work_group"@), "primary"@)),
            ),
        ),
    }
}

/// The options of a role, which is assumed on top of whichever credentials were chosen.
pub open spec fn role_options(config: AdapterConfig) -> Result<Options, Seq<char>> {
    match text(config, "assume_role_arn"@) {
        None => Ok(Seq::empty()),
        Some(arn) => match count(config, "assume_role_duration_seconds"@) {
            Err(e) => Err(e),
            Ok(given) => {
                let duration = match given {
                    Some(n) => n,
                    None => 3600,
                };
                let named = match text(config, "assume_role_external_id"@) {
                    Some(id) => Seq::empty().push((AthenaOption::RoleArn, arn)).push(
                        (AthenaOption::RoleExternalId, id),
                    ),
                    None => Seq::empty().push((AthenaOption::RoleArn, arn)),
                };
                if 900 <= duration <= 43200 {
                    Ok(
                        named.push(
                            (
                                AthenaOption::RoleSessionName,
                                or(text(config, "assume_role_session_name"@), "dbt-athena"@),
                            ),
                        ).push((AthenaOption::RoleDuration, decimal(duration) + "s"@)),
                    )
                } else {
                    Err(
                        "Athena 'assume_role_duration_seconds' must be between 900 and 43200, got "@
                            + decimal(duration),
                    )
                }
            },
        },
    }
}

pub open spec fn endpoint_options(config: AdapterConfig) -> Options {
    match text(config, "endpoint_url"@) {
        Some(url) => Seq::empty().push((AthenaOption::EndpointUrl, url)),
        None => Seq::empty(),
    }
}

/// The option of the polling interval. Its seconds are given where the field reads as a
/// positive number.
pub open spec fn poll_options(config: AdapterConfig, seconds: Option<Seq<char>>) -> Result<
    Options,
    Seq<char>,
> {
    match scalar(config, "poll_interval"@) {
        None => Ok(Seq::empty()),
        Some(given) => match seconds {
            Some(s) => Ok(Seq::empty().push((AthenaOption::PollInterval, s + "s"@))),
            None => Err(
                "Athena 'poll_interval' must be a positive number of seconds, got '"@ + given
                    + "'"@,
            ),
        },
    }
}

/// How often a call is retried: the count of the AWS client, unless it is zero or not
/// given, and else the adapter's own.
pub open spec fn retries(config: AdapterConfig) -> Result<int, Seq<char>> {
    match count(config, "num_boto3_retries"@) {
        Err(e) => Err(e),
        Ok(boto) => if boto is Some && boto->0 > 0 {
            Ok(boto->0)
        } else {
            match count(config, "num_retries"@) {
                Err(e) => Err(e),
                Ok(Some(n)) => Ok(n),
                Ok(None) => Ok(5),
            }
        },
    }
}

pub open spec fn iceberg_retries(config: AdapterConfig) -> Result<int, Seq<char>> {
    match count(config, "num_iceberg_retries"@) {
        Err(e) => Err(e),
        Ok(Some(n)) => Ok(n),
        Ok(None) => Ok(3),
    }
}

/// The settings of a connection, or why the profile cannot be used. The driver counts
/// attempts, which are one more than the retries.
pub open spec fn connection_options(config: AdapterConfig, poll_seconds: Option<Seq<char>>) -> Result<
    Options,
    Seq<char>,
> {
    match base_options(config) {
        Err(e) => Err(e),
        Ok(base) => match role_options(config) {
            Err(e) => Err(e),
            Ok(role) => match poll_options(config, poll_seconds) {
                Err(e) => Err(e),
                Ok(poll) => match retries(config) {
                    Err(e) => Err(e),
                    Ok(n) => match iceberg_retries(config) {
                        Err(e) => Err(e),
                        Ok(m) => Ok(
                            base + role + endpoint_options(config) + poll + Seq::empty().push(
                                (AthenaOption::MaxAttempts, decimal(n + 1)),
                            ).push((AthenaOption::IcebergCommitRetries, decimal(m))),
                        ),
                    },
                },
            },
        },
    }
}

/// The attempts can be counted: one more than the retries.
pub open spec fn attempts_fit(config: AdapterConfig) -> bool {
    retries(config) matches Ok(n) ==> n < u32::MAX
}

fn require_str(config: &AdapterConfig, name: &str, message: &str) -> (r: Result<String, AuthError>)
    ensures
        match (r, text(*config, name@)) {
            (Ok(s), Some(t)) => s@ == t,
            (Err(e), None) => e.message@ == message@,
            _ => false,
        },
{
    match config.get_str(name) {
        Some(s) => Ok(s),
        None => Err(AuthError::config(message.to_owned())),
    }
}

fn apply_base(config: &AdapterConfig, builder: &mut DatabaseBuilder) -> (r: Result<(), AuthError>)
    ensures
        match (r, base_options(*config)) {
            (Ok(_), Ok(options)) => final(builder)@ == old(builder)@ + options,
            (Err(e), Err(f)) => e.message@ == f,
            _ => false,
        },
{
    let ghost start = builder@;
    let region = match require_str(
        config,
        "region_name",
        "Athena requires 'region_name' in profile configuration",
    ) {
        Ok(s) => s,
        Err(e) => {
            return Err(e);
        },
    };
    let s3_staging_dir = match require_str(
        config,
        "s3_staging_dir",
        "Athena requires 's3_staging_dir' in profile configuration",
    ) {
        Ok(s) => s,
        Err(e) => {
            return Err(e);
        },
    };
    let schema = match require_str(
        config,
        "schema",
        "Athena requires 'schema' in profile configuration",
    ) {
        Ok(s) => s,
        Err(e) => {
            return Err(e);
        },
    };
    // The profile's `database` is the name of the catalog; `catalog` is an alias of it.
    let catalog = match config.get_str("database") {
        Some(c) => c,
        None => match config.get_str("catalog") {
            Some(c) => c,
            None => DEFAULT_CATALOG.to_owned(),
        },
    };
    let work_group = match config.get_str("work_group") {
        Some(w) => w,
        None => DEFAULT_WORK_GROUP.to_owned(),
    };
    builder.with_named_option(AthenaOption::Region, region.as_str());
    builder.with_named_option(AthenaOption::S3StagingDir, s3_staging_dir.as_str());
    builder.with_named_option(AthenaOption::Catalog, catalog.as_str());
    builder.with_named_option(AthenaOption::Schema, schema.as_str());
    builder.with_named_option(AthenaOption::WorkGroup, work_group.as_str());
    assert(builder@ =~= start + base_options(*config)->Ok_0);
    Ok(())
}

fn apply_role(config: &AdapterConfig, builder: &mut DatabaseBuilder) -> (r: Result<(), AuthError>)
    ensures
        match (r, role_options(*config)) {
            (Ok(_), Ok(options)) => final(builder)@ == old(builder)@ + options,
            (Err(e), Err(f)) => e.message@ == f,
            _ => false,
        },
{
    let ghost start = builder@;
    let role_arn = match config.get_str("assume_role_arn") {
        Some(r) => r,
        None => {
            assert(start + Seq::empty() =~= start);
            return Ok(());
        },
    };
    // The STS AssumeRole bounds, checked up front.
    let duration = match get_count(config, "assume_role_duration_seconds") {
        Ok(Some(n)) => n,
        Ok(None) => DEFAULT_ROLE_DURATION_SECONDS,
        Err(e) => {
            return Err(e);
        },
    };
    if !(900 <= duration && duration <= 43200) {
        return Err(
            AuthError::config(
                "Athena 'assume_role_duration_seconds' must be between 900 and 43200, got ".to_owned().concat(
                decimal_of(duration as i128).as_str()),
            ),
        );
    }
    builder.with_named_option(AthenaOption::RoleArn, role_arn.as_str());
    if let Some(external_id) = config.get_str("assume_role_external_id") {
        builder.with_named_option(AthenaOption::RoleExternalId, external_id.as_str());
    }
    let session_name = match config.get_str("assume_role_session_name") {
        Some(s) => s,
        None => DEFAULT_ROLE_SESSION_NAME.to_owned(),
    };
    builder.with_named_option(AthenaOption::RoleSessionName, session_name.as_str());
    let seconds = decimal_of(duration as i128).concat("s");
    builder.with_named_option(AthenaOption::RoleDuration, seconds.as_str());
    assert(builder@ =~= start + role_options(*config)->Ok_0);
    Ok(())
}

fn effective_retries(config: &AdapterConfig) -> (r: Result<u32, AuthError>)
    ensures
        match (r, retries(*config)) {
            (Ok(n), Ok(m)) => n == m,
            (Err(e), Err(f)) => e.message@ == f,
            _ => false,
        },
{
    match get_count(config, "num_boto3_retries") {
        Err(e) => {
            return Err(e);
        },
        Ok(Some(n)) => {
            if n > 0 {
                return Ok(n);
            }
        },
        Ok(None) => {},
    }
    match get_count(config, "num_retries") {
        Err(e) => Err(e),
        Ok(Some(n)) => Ok(n),
        Ok(None) => Ok(DEFAULT_NUM_RETRIES),
    }
}

pub open spec fn opt_ref(s: Option<&str>) -> Option<Seq<char>> {
    match s {
        Some(t) => Some(t@),
        None => None,
    }
}

/// Sets what a connection needs. `poll_seconds` is the polling interval in seconds, where
/// the profile's field reads as a positive number.
pub fn apply_connection_args(
    config: &AdapterConfig,
    builder: &mut DatabaseBuilder,
    poll_seconds: Option<&str>,
) -> (r: Result<(), AuthError>)
    requires
        attempts_fit(*config),
    ensures
        match (r, connection_options(*config, opt_ref(poll_seconds))) {
            (Ok(_), Ok(options)) => final(builder)@ == old(builder)@ + options,
            (Err(e), Err(f)) => e.message@ == f,
            _ => false,
        },
{
    let ghost start = builder@;
    if let Err(e) = apply_base(config, builder) {
        return Err(e);
    }
    if let Err(e) = apply_role(config, builder) {
        return Err(e);
    }
    if let Some(endpoint_url) = config.get_str("endpoint_url") {
        builder.with_named_option(AthenaOption::EndpointUrl, endpoint_url.as_str());
    }
    if let Some(given) = config.get_string("poll_interval") {
        match poll_seconds {
            Some(s) => {
                let interval = s.to_owned().concat("s");
                builder.with_named_option(AthenaOption::PollInterval, interval.as_str());
            },
            None => {
                return Err(
                    AuthError::config(
                        "Athena 'poll_interval' must be a positive number of seconds, got '".to_owned().concat(
                        given.as_str()).concat("'"),
                    ),
                );
            },
        }
    }
    let retries = match effective_retries(config) {
        Ok(n) => n,
        Err(e) => {
            return Err(e);
        },
    };
    let attempts = decimal_of(retries as i128 + 1);
    builder.with_named_option(AthenaOption::MaxAttempts, attempts.as_str());
    let iceberg_retries = match get_count(config, "num_iceberg_retries") {
        Ok(Some(n)) => n,
        Ok(None) => DEFAULT_NUM_ICEBERG_RETRIES,
        Err(e) => {
            return Err(e);
        },
    };
    let shown = decimal_of(iceberg_retries as i128);
    builder.with_named_option(AthenaOption::IcebergCommitRetries, shown.as_str());
    assert(builder@ =~= start + connection_options(*config, opt_ref(poll_seconds))->Ok_0);
    Ok(())
}

/// Configures connections to Athena.
#[derive(Debug)]
pub struct AthenaAuth;

/// The options of a connection, or why the profile cannot be used.
pub open spec fn configured(config: AdapterConfig, poll_seconds: Option<Seq<char>>) -> Result<
    Options,
    Seq<char>,
> {
    match auth(config) {
        Err(e) => Err(e),
        Ok(a) => match connection_options(config, poll_seconds) {
            Err(e) => Err(e),
            Ok(options) => Ok(auth_options(a) + options),
        },
    }
}

impl AthenaAuth {
    pub fn new() -> AthenaAuth {
        AthenaAuth
    }

    pub fn configure(&self, config: &AdapterConfig, poll_seconds: Option<&str>) -> (r: Result<
        DatabaseBuilder,
        AuthError,
    >)
        requires
            attempts_fit(*config),
        ensures
            match (r, configured(*config, opt_ref(poll_seconds))) {
                (Ok(b), Ok(options)) => b@ == options,
                (Err(e), Err(f)) => e.message@ == f,
                _ => false,
            },
    {
        let mut builder = DatabaseBuilder::new();
        match parse_auth(config) {
            Err(e) => {
                return Err(e);
            },
            Ok(a) => {
                let ghost options = auth_options(a@);
                a.apply(&mut builder);
                assert(builder@ =~= options);
            },
        }
        if let Err(e) = apply_connection_args(config, &mut builder, poll_seconds) {
            return Err(e);
        }
        Ok(builder)
    }
}

// ---------------------------------------------------------------------------
// What every connection has
// ---------------------------------------------------------------------------

/// A secret reaches the driver only with the key that it belongs to, and never beside a
/// named profile.
pub proof fn credentials_are_not_mixed(config: AdapterConfig, poll_seconds: Option<Seq<char>>)
    ensures
        auth(config) matches Ok(a) ==> {
            let options = auth_options(a);
            &&& option_from(options, AthenaOption::AuthType, 0) is Some
            &&& option_from(options, AthenaOption::SecretAccessKey, 0) is Some <==> option_from(
                options,
                AthenaOption::AccessKeyId,
                0,
            ) is Some
            &&& option_from(options, AthenaOption::ProfileName, 0) is Some ==> option_from(
                options,
                AthenaOption::AccessKeyId,
                0,
            ) is None
            &&& option_from(options, AthenaOption::SessionToken, 0) is Some ==> option_from(
                options,
                AthenaOption::AccessKeyId,
                0,
            ) is Some
        },
{
    reveal_with_fuel(option_from, 6);
}

} // verus!
