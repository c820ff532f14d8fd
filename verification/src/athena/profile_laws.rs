//! What of a profile reaches the driver.

use crate::athena::auth::{
    auth, auth_options, base_options, configured, count, endpoint_options, field_from,
    iceberg_retries, names, option_from, poll_options, retries, role_options, scalar, text,
    AdapterConfig, AthenaOption, AuthView, Options,
};
use crate::json::opt;
use crate::number::{decimal, unsigned};
use vstd::prelude::*;

verus! {

proof fn first_field_is(config: AdapterConfig, name: Seq<char>, i: int, k: int)
    requires
        0 <= k <= i <= config.fields@.len(),
        i < config.fields@.len() ==> config.fields@[i].name@ == name,
        forall|j: int| k <= j < i ==> (#[trigger] config.fields@[j]).name@ != name,
    ensures
        i < config.fields@.len() ==> field_from(config.fields@, name, k) == Some(
            config.fields@[i],
        ),
        i == config.fields@.len() ==> field_from(config.fields@, name, k) is None,
    decreases i - k,
{
    if k < i {
        assert(config.fields@[k].name@ != name);
        first_field_is(config, name, i, k + 1);
    }
}

/// A field of a profile is the first that has its name.
pub proof fn fields_go_by_their_first_name(config: AdapterConfig, name: Seq<char>, i: int)
    requires
        0 <= i <= config.fields@.len(),
        forall|j: int| 0 <= j < i ==> (#[trigger] config.fields@[j]).name@ != name,
    ensures
        i < config.fields@.len() && config.fields@[i].name@ == name ==> {
            &&& names(config, name)
            &&& text(config, name) == opt(config.fields@[i].string)
            &&& scalar(config, name) == opt(config.fields@[i].shown)
        },
        i == config.fields@.len() ==> {
            &&& !names(config, name)
            &&& text(config, name) is None
            &&& scalar(config, name) is None
        },
{
    if i == config.fields@.len() || config.fields@[i].name@ == name {
        first_field_is(config, name, i, 0);
    }
}

// ---------------------------------------------------------------------------
// Credentials
// ---------------------------------------------------------------------------

/// Keys come before a profile, a profile before the credentials of the machine; a token is
/// used only with keys.
pub proof fn credentials_are_chosen(config: AdapterConfig)
    ensures
        names(config, "lf_tags_database"@) ==> auth(config) is Err,
        !names(config, "lf_tags_database"@) ==> {
            let id = text(config, "aws_access_key_id"@);
            let secret = text(config, "aws_secret_access_key"@);
            let token = text(config, "aws_session_token"@);
            let profile = text(config, "aws_profile_name"@);
            &&& id is None && profile is None ==> auth(config) == Ok::<AuthView, Seq<char>>(
                AuthView::Iam,
            )
            &&& id is None ==> (profile matches Some(name) ==> if name.len() == 0 {
                auth(config) is Err
            } else {
                auth(config) == Ok::<AuthView, Seq<char>>(AuthView::Profile(name))
            })
            &&& id matches Some(i) ==> {
                &&& i.len() == 0 ==> auth(config) is Err
                &&& secret is None ==> auth(config) is Err
                &&& secret matches Some(s) ==> {
                    &&& s.len() == 0 ==> auth(config) is Err
                    &&& i.len() > 0 && s.len() > 0 && (token is None || token->0.len() == 0)
                        ==> auth(config) == Ok::<AuthView, Seq<char>>(AuthView::AccessKey(i, s))
                    &&& i.len() > 0 && s.len() > 0 && (token is Some && token->0.len() > 0)
                        ==> auth(config) == Ok::<AuthView, Seq<char>>(
                        AuthView::TemporaryCredentials(i, s, token->0),
                    )
                }
            }
        },
{
}

proof fn options_in_two(a: Options, b: Options, option: AthenaOption, i: int)
    requires
        0 <= i <= a.len(),
    ensures
        option_from(a + b, option, i) == (if option_from(a, option, i) is Some {
            option_from(a, option, i)
        } else {
            option_from(b, option, 0)
        }),
    decreases a.len() - i,
{
    if i < a.len() {
        options_in_two(a, b, option, i + 1);
    } else {
        options_behind(a, b, option, 0);
    }
}

proof fn options_behind(a: Options, b: Options, option: AthenaOption, j: int)
    requires
        0 <= j <= b.len(),
    ensures
        option_from(a + b, option, a.len() + j) == option_from(b, option, j),
    decreases b.len() - j,
{
    if j < b.len() {
        options_behind(a, b, option, j + 1);
    }
}

/// Each way to authenticate hands the driver its type and just its own secrets.
pub proof fn credentials_reach_the_driver(id: Seq<char>, secret: Seq<char>, token: Seq<char>)
    ensures
        ({
            let o = auth_options(AuthView::Iam);
            &&& option_from(o, AthenaOption::AuthType, 0) == Some("iam"@)
            &&& option_from(o, AthenaOption::AccessKeyId, 0) is None
            &&& option_from(o, AthenaOption::ProfileName, 0) is None
        }),
        ({
            let o = auth_options(AuthView::AccessKey(id, secret));
            &&& option_from(o, AthenaOption::AuthType, 0) == Some("access_key"@)
            &&& option_from(o, AthenaOption::AccessKeyId, 0) == Some(id)
            &&& option_from(o, AthenaOption::SecretAccessKey, 0) == Some(secret)
            &&& option_from(o, AthenaOption::SessionToken, 0) is None
        }),
        ({
            let o = auth_options(AuthView::TemporaryCredentials(id, secret, token));
            &&& option_from(o, AthenaOption::AuthType, 0) == Some("access_key"@)
            &&& option_from(o, AthenaOption::AccessKeyId, 0) == Some(id)
            &&& option_from(o, AthenaOption::SecretAccessKey, 0) == Some(secret)
            &&& option_from(o, AthenaOption::SessionToken, 0) == Some(token)
        }),
        ({
            let o = auth_options(AuthView::Profile(id));
            &&& option_from(o, AthenaOption::AuthType, 0) == Some("profile"@)
            &&& option_from(o, AthenaOption::ProfileName, 0) == Some(id)
            &&& option_from(o, AthenaOption::AccessKeyId, 0) is None
        }),
{
    reveal_with_fuel(option_from, 6);
}

// ---------------------------------------------------------------------------
// The connection
// ---------------------------------------------------------------------------

/// A number of a profile is written in digits and fits 32 bits.
pub proof fn numbers_are_counts(config: AdapterConfig, name: Seq<char>)
    ensures
        scalar(config, name) is None ==> count(config, name) == Ok::<Option<int>, Seq<char>>(None),
        scalar(config, name) matches Some(v) ==> (match unsigned(v) {
            Some(n) => if n <= 0xFFFF_FFFF {
                count(config, name) == Ok::<Option<int>, Seq<char>>(Some(n as int))
            } else {
                count(config, name) is Err
            },
            None => count(config, name) is Err,
        }),
{
}

/// Retries are those of `num_boto3_retries` where there are any, then of `num_retries`,
/// then five; commits of Iceberg are tried three times again.
pub proof fn retries_have_defaults(config: AdapterConfig)
    ensures
        (count(config, "num_boto3_retries"@) matches Ok(Some(n)) && n > 0) ==> retries(config)
            == Ok::<int, Seq<char>>(count(config, "num_boto3_retries"@)->Ok_0->0),
        (count(config, "num_boto3_retries"@) matches Ok(b) && (b is None || b->0 <= 0)) ==> (
        match count(config, "num_retries"@) {
            Ok(Some(m)) => retries(config) == Ok::<int, Seq<char>>(m),
            Ok(None) => retries(config) == Ok::<int, Seq<char>>(5),
            Err(_) => retries(config) is Err,
        }),
        count(config, "num_boto3_retries"@) is Err ==> retries(config) is Err,
        count(config, "num_iceberg_retries"@) == Ok::<Option<int>, Seq<char>>(None)
            ==> iceberg_retries(config) == Ok::<int, Seq<char>>(3),
        count(config, "num_iceberg_retries"@) matches Ok(Some(m)) ==> iceberg_retries(config)
            == Ok::<int, Seq<char>>(m),
        count(config, "num_iceberg_retries"@) is Err ==> iceberg_retries(config) is Err,
{
}

/// A role is assumed for an hour, or for what is given, from a quarter of an hour to
/// twelve hours.
pub proof fn roles_are_assumed(config: AdapterConfig)
    ensures
        text(config, "assume_role_arn"@) is None ==> role_options(config) == Ok::<
            Options,
            Seq<char>,
        >(Seq::empty()),
        text(config, "assume_role_arn"@) matches Some(arn) ==> {
            let given = count(config, "assume_role_duration_seconds"@);
            let seconds = match given {
                Ok(Some(n)) => n,
                _ => 3600,
            };
            &&& given is Err ==> role_options(config) is Err
            &&& given is Ok && !(900 <= seconds <= 43200) ==> role_options(config) is Err
            &&& given is Ok && 900 <= seconds <= 43200 ==> (role_options(config) matches Ok(o) && {
                &&& option_from(o, AthenaOption::RoleArn, 0) == Some(arn)
                &&& option_from(o, AthenaOption::RoleExternalId, 0) == text(
                    config,
                    "assume_role_external_id"@,
                )
                &&& option_from(o, AthenaOption::RoleDuration, 0) == Some(
                    decimal(seconds) + seq!['s'],
                )
                &&& option_from(o, AthenaOption::RoleSessionName, 0) == Some(
                    if text(config, "assume_role_session_name"@) is Some {
                        text(config, "assume_role_session_name"@)->0
                    } else {
                        "dbt-athena"@
                    },
                )
            })
        },
{
    reveal_strlit("s");
    assert("s"@ =~= seq!['s']);
    reveal_with_fuel(option_from, 6);
}

/// Every connection names its region, its staging directory and its schema; its catalog is
/// the database, or the catalog, or the default, and its work group has a default too.
pub proof fn connections_name_their_place(config: AdapterConfig)
    ensures
        base_options(config) is Ok <==> text(config, "region_name"@) is Some && text(
            config,
            "s3_staging_dir"@,
        ) is Some && text(config, "schema"@) is Some,
        base_options(config) matches Ok(o) ==> {
            &&& option_from(o, AthenaOption::Region, 0) == text(config, "region_name"@)
            &&& option_from(o, AthenaOption::S3StagingDir, 0) == text(config, "s3_staging_dir"@)
            &&& option_from(o, AthenaOption::Schema, 0) == text(config, "schema"@)
            &&& text(config, "database"@) is Some ==> option_from(o, AthenaOption::Catalog, 0)
                == text(config, "database"@)
            &&& text(config, "database"@) is None && text(config, "catalog"@) is Some
                ==> option_from(o, AthenaOption::Catalog, 0) == text(config, "catalog"@)
            &&& text(config, "database"@) is None && text(config, "catalog"@) is None
                ==> option_from(o, AthenaOption::Catalog, 0) == Some("awsdatacatalog"@)
            &&& option_from(o, AthenaOption::WorkGroup, 0) == Some(
                if text(config, "work_group"@) is Some {
                    text(config, "work_group"@)->0
                } else {
                    "primary"@
                },
            )
        },
{
    reveal_with_fuel(option_from, 7);
}

/// What a connection is told of each option, whichever part of it said so.
pub proof fn a_connection_is_told_everything(
    config: AdapterConfig,
    seconds: Option<Seq<char>>,
    option: AthenaOption,
)
    ensures
        configured(config, seconds) is Ok <==> auth(config) is Ok && base_options(config) is Ok
            && role_options(config) is Ok && poll_options(config, seconds) is Ok && retries(
            config,
        ) is Ok && iceberg_retries(config) is Ok,
        configured(config, seconds) matches Ok(all) ==> {
            let a = auth_options(auth(config)->Ok_0);
            let b = base_options(config)->Ok_0;
            let c = role_options(config)->Ok_0;
            let d = poll_options(config, seconds)->Ok_0;
            &&& option_from(a, option, 0) is Some ==> option_from(all, option, 0) == option_from(
                a,
                option,
                0,
            )
            &&& option == AthenaOption::Region || option == AthenaOption::S3StagingDir || option
                == AthenaOption::Schema || option == AthenaOption::Catalog || option
                == AthenaOption::WorkGroup ==> option_from(all, option, 0) == option_from(
                b,
                option,
                0,
            )
            &&& option == AthenaOption::RoleArn || option == AthenaOption::RoleExternalId || option
                == AthenaOption::RoleSessionName || option == AthenaOption::RoleDuration
                ==> option_from(all, option, 0) == option_from(c, option, 0)
            &&& option == AthenaOption::EndpointUrl ==> option_from(all, option, 0) == text(
                config,
                "endpoint_url"@,
            )
            &&& option == AthenaOption::PollInterval ==> option_from(all, option, 0)
                == option_from(d, option, 0)
            &&& option == AthenaOption::MaxAttempts ==> option_from(all, option, 0) == Some(
                decimal(retries(config)->Ok_0 + 1),
            )
            &&& option == AthenaOption::IcebergCommitRetries ==> option_from(all, option, 0)
                == Some(decimal(iceberg_retries(config)->Ok_0))
        },
        scalar(config, "poll_interval"@) is None ==> poll_options(config, seconds) == Ok::<
            Options,
            Seq<char>,
        >(Seq::empty()),
        scalar(config, "poll_interval"@) is Some && seconds is None ==> poll_options(
            config,
            seconds,
        ) is Err,
        scalar(config, "poll_interval"@) is Some ==> (seconds matches Some(s) ==> (poll_options(
            config,
            seconds,
        ) matches Ok(d) && option_from(d, AthenaOption::PollInterval, 0) == Some(s + seq!['s']))),
{
    reveal_strlit("s");
    assert("s"@ =~= seq!['s']);
    reveal_with_fuel(option_from, 7);
    if let Ok(all) = configured(config, seconds) {
        let a = auth_options(auth(config)->Ok_0);
        let b = base_options(config)->Ok_0;
        let c = role_options(config)->Ok_0;
        let d = poll_options(config, seconds)->Ok_0;
        let e = endpoint_options(config);
        let f = Seq::<(AthenaOption, Seq<char>)>::empty().push(
            (AthenaOption::MaxAttempts, decimal(retries(config)->Ok_0 + 1)),
        ).push((AthenaOption::IcebergCommitRetries, decimal(iceberg_retries(config)->Ok_0)));
        options_in_two(a, b + c + e + d + f, option, 0);
        options_in_two(b + c + e + d, f, option, 0);
        options_in_two(b + c + e, d, option, 0);
        options_in_two(b + c, e, option, 0);
        options_in_two(b, c, option, 0);
        assert(all =~= a + (b + c + e + d + f));
    }
}

} // verus!
