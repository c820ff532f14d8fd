//! What the answers to the questions of a profile change.

use crate::profile::athena_config::{
    answered, applied, athena_fields, auth_methods, field_value, is_asked, non_blank,
    with_default_threads, with_text, with_value, FieldKindView, FieldValueView, FieldView,
    ProfileView, StringOrIntegerView,
};
use vstd::prelude::*;

verus! {

proof fn names_differ()
    ensures
        "region_name"@.len() == 11 && "region_name"@[0] == 'r',
        "s3_staging_dir"@.len() == 14,
        "s3_data_dir"@.len() == 11 && "s3_data_dir"@[0] == 's',
        "database"@.len() == 8,
        "schema"@.len() == 6,
        "work_group"@.len() == 10,
        "aws_profile_name"@.len() == 16,
        "aws_access_key_id"@.len() == 17 && "aws_access_key_id"@[4] == 'a',
        "aws_secret_access_key"@.len() == 21,
        "aws_session_token"@.len() == 17 && "aws_session_token"@[4] == 's',
        "auth_method"@.len() == 11 && "auth_method"@[0] == 'a',
{
    reveal_strlit("region_name");
    reveal_strlit("s3_staging_dir");
    reveal_strlit("s3_data_dir");
    reveal_strlit("database");
    reveal_strlit("schema");
    reveal_strlit("work_group");
    reveal_strlit("aws_profile_name");
    reveal_strlit("aws_access_key_id");
    reveal_strlit("aws_secret_access_key");
    reveal_strlit("aws_session_token");
    reveal_strlit("auth_method");
}

/// An answer changes the field that it names, and no other.
pub proof fn an_answer_changes_its_field(c: ProfileView, s: Seq<char>)
    ensures
        with_text(c, "region_name"@, s) == (ProfileView { region_name: Some(s), ..c }),
        with_text(c, "s3_staging_dir"@, s) == (ProfileView { s3_staging_dir: Some(s), ..c }),
        with_text(c, "schema"@, s) == (ProfileView { schema: Some(s), ..c }),
        with_text(c, "aws_profile_name"@, s) == (ProfileView { aws_profile_name: Some(s), ..c }),
        with_text(c, "aws_access_key_id"@, s) == (ProfileView { aws_access_key_id: Some(s), ..c }),
        with_text(c, "aws_secret_access_key"@, s) == (ProfileView {
            aws_secret_access_key: Some(s),
            ..c
        }),
        s.len() > 0 ==> {
            &&& with_text(c, "s3_data_dir"@, s) == (ProfileView { s3_data_dir: Some(s), ..c })
            &&& with_text(c, "database"@, s) == (ProfileView { database: Some(s), ..c })
            &&& with_text(c, "work_group"@, s) == (ProfileView { work_group: Some(s), ..c })
            &&& with_text(c, "aws_session_token"@, s) == (ProfileView {
                aws_session_token: Some(s),
                ..c
            })
        },
        with_text(c, "s3_data_dir"@, Seq::empty()) == (ProfileView { s3_data_dir: None, ..c }),
        with_text(c, "database"@, Seq::empty()) == (ProfileView { database: None, ..c }),
        with_text(c, "work_group"@, Seq::empty()) == (ProfileView { work_group: None, ..c }),
        with_text(c, "aws_session_token"@, Seq::empty()) == (ProfileView {
            aws_session_token: None,
            ..c
        }),
        with_text(c, "auth_method"@, s) == c,
{
    names_differ();
}

/// The way to authenticate decides which credentials stay: none by the default chain, the
/// profile by a profile, the keys and the token by keys. Nothing else changes.
pub proof fn a_method_keeps_its_credentials(c: ProfileView, method: int)
    ensures
        with_value(c, "auth_method"@, FieldValueView::Integer(0)) == (ProfileView {
            aws_profile_name: None,
            aws_access_key_id: None,
            aws_secret_access_key: None,
            aws_session_token: None,
            ..c
        }),
        with_value(c, "auth_method"@, FieldValueView::Integer(1)) == (ProfileView {
            aws_access_key_id: None,
            aws_secret_access_key: None,
            aws_session_token: None,
            ..c
        }),
        with_value(c, "auth_method"@, FieldValueView::Integer(2)) == (ProfileView {
            aws_profile_name: None,
            ..c
        }),
        with_value(c, "region_name"@, FieldValueView::Integer(method)) == c,
        with_value(c, "auth_method"@, FieldValueView::Boolean(true)) == c,
{
    names_differ();
}

/// The way to authenticate is read off the credentials: keys before a profile.
pub proof fn a_method_is_read_off_its_credentials(c: ProfileView)
    ensures
        c.aws_access_key_id is Some ==> field_value(c, "auth_method"@) == Some(
            FieldValueView::Integer(2),
        ),
        c.aws_access_key_id is None && c.aws_profile_name is Some ==> field_value(
            c,
            "auth_method"@,
        ) == Some(FieldValueView::Integer(1)),
        c.aws_access_key_id is None && c.aws_profile_name is None ==> field_value(
            c,
            "auth_method"@,
        ) is None,
        c.region_name matches Some(s) ==> field_value(c, "region_name"@) == Some(
            FieldValueView::Text(s),
        ),
        c.schema matches Some(s) ==> field_value(c, "schema"@) == Some(FieldValueView::Text(s)),
        c.database matches Some(s) ==> field_value(c, "database"@) == Some(
            FieldValueView::Text(s),
        ),
        c.s3_staging_dir matches Some(s) ==> field_value(c, "s3_staging_dir"@) == Some(
            FieldValueView::Text(s),
        ),
        c.s3_data_dir matches Some(s) ==> field_value(c, "s3_data_dir"@) == Some(
            FieldValueView::Text(s),
        ),
        c.work_group matches Some(s) ==> field_value(c, "work_group"@) == Some(
            FieldValueView::Text(s),
        ),
{
    names_differ();
}

/// A question is asked where it has no condition, or where the answer to the question that
/// it depends on is the one that it wants; without that answer the profile counts.
pub proof fn questions_that_are_asked(
    field: FieldView,
    c: ProfileView,
    a: Seq<(Seq<char>, FieldValueView)>,
)
    ensures
        field.condition is None ==> is_asked(field, c, a),
        field.condition matches Some((name, wanted)) ==> {
            &&& answered(a, name, 0) matches Some(v) ==> (is_asked(field, c, a) <==> v == wanted)
            &&& answered(a, name, 0) is None ==> (is_asked(field, c, a) <==> field_value(c, name)
                == Some(wanted))
        },
{
}

/// The questions are gone through in their order; an answer counts where its question is
/// asked.
pub proof fn answers_are_taken_in_turn(
    fields: Seq<FieldView>,
    c: ProfileView,
    a: Seq<(Seq<char>, FieldValueView)>,
    i: int,
)
    requires
        0 <= i <= fields.len(),
    ensures
        i == fields.len() ==> applied(fields, c, a, i) == c,
        i < fields.len() && answered(a, fields[i].name, 0) is None ==> applied(fields, c, a, i)
            == applied(fields, c, a, i + 1),
        i < fields.len() && !is_asked(fields[i], c, a) ==> applied(fields, c, a, i) == applied(
            fields,
            c,
            a,
            i + 1,
        ),
        i < fields.len() && is_asked(fields[i], c, a) ==> (answered(
            a,
            fields[i].name,
            0,
        ) matches Some(v) ==> applied(fields, c, a, i) == applied(
            fields,
            with_value(c, fields[i].name, v),
            a,
            i + 1,
        )),
{
}

/// The questions, in their order: which must be answered, which are secret, and which are
/// asked for one way to authenticate only.
pub proof fn the_questions_of_athena()
    ensures
        ({
            let f = athena_fields();
            &&& f.len() == 11
            &&& f[0].name == "region_name"@ && f[0].required
            &&& f[1].name == "s3_staging_dir"@ && f[1].required
            &&& f[2].name == "s3_data_dir"@ && !f[2].required
            &&& f[3].name == "database"@ && !f[3].required && f[3].default == Some(
                "awsdatacatalog"@,
            )
            &&& f[4].name == "schema"@ && f[4].required
            &&& f[5].name == "work_group"@ && !f[5].required
            &&& f[6].name == "auth_method"@ && (f[6].kind matches FieldKindView::Select(ways, n)
                && ways.len() == 3 && n == 0)
            &&& f[7].name == "aws_profile_name"@ && f[7].required && f[7].condition == Some(
                ("auth_method"@, FieldValueView::Integer(1)),
            )
            &&& f[8].name == "aws_access_key_id"@ && f[8].required && f[8].condition == Some(
                ("auth_method"@, FieldValueView::Integer(2)),
            )
            &&& f[9].name == "aws_secret_access_key"@ && f[9].required && f[9].kind is Password
                && f[9].condition == Some(("auth_method"@, FieldValueView::Integer(2)))
            &&& f[10].name == "aws_session_token"@ && !f[10].required && f[10].kind is Password
                && f[10].condition == Some(("auth_method"@, FieldValueView::Integer(2)))
            &&& forall|i: int| 0 <= i < 7 ==> (#[trigger] f[i]).condition is None
        }),
{
}

/// A profile without threads gets one; another keeps its own.
pub proof fn threads_have_a_default(c: ProfileView)
    ensures
        c.threads is None ==> with_default_threads(c) == (ProfileView {
            threads: Some(StringOrIntegerView::Integer(1)),
            ..c
        }),
        c.threads is Some ==> with_default_threads(c) == c,
{
}

/// A blank answer is none, and any other is kept.
pub proof fn blank_answers_are_none(s: Seq<char>)
    ensures
        s.len() == 0 ==> non_blank(s) is None,
        s.len() > 0 ==> non_blank(s) == Some(s),
        auth_methods() == seq![
            "AWS default credential chain (env vars, instance/role, SSO)"@,
            "Named AWS profile"@,
            "Access key pair"@,
        ],
{
    assert(auth_methods() =~= seq![
        "AWS default credential chain (env vars, instance/role, SSO)"@,
        "Named AWS profile"@,
        "Access key pair"@,
    ]);
}

} // verus!
