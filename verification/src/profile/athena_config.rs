//! The Athena profile: what is asked for it, and what becomes of the answers.

use crate::json::opt;
use crate::text::{same, views};
use vstd::prelude::*;

verus! {

/// Auth choices, in the order in which they are offered. Explicit keys win over a named
/// profile, which wins over the default credential chain.
pub const AUTH_DEFAULT_CHAIN: i64 = 0;

pub const AUTH_PROFILE: i64 = 1;

pub const AUTH_ACCESS_KEY: i64 = 2;

// ---------------------------------------------------------------------------
// Values and fields
// ---------------------------------------------------------------------------

#[derive(Debug)]
pub enum FieldValue {
    Text(String),
    Integer(i64),
    Boolean(bool),
}

pub enum FieldValueView {
    Text(Seq<char>),
    Integer(int),
    Boolean(bool),
}

impl View for FieldValue {
    type V = FieldValueView;

    open spec fn view(&self) -> FieldValueView {
        match *self {
            FieldValue::Text(s) => FieldValueView::Text(s@),
            FieldValue::Integer(n) => FieldValueView::Integer(n as int),
            FieldValue::Boolean(b) => FieldValueView::Boolean(b),
        }
    }
}

pub open spec fn value_view(v: Option<FieldValue>) -> Option<FieldValueView> {
    match v {
        Some(v) => Some(v@),
        None => None,
    }
}

impl FieldValue {
    pub fn copy(&self) -> (r: FieldValue)
        ensures
            r@ == self@,
    {
        match self {
            FieldValue::Text(s) => FieldValue::Text(s.clone()),
            FieldValue::Integer(n) => FieldValue::Integer(*n),
            FieldValue::Boolean(b) => FieldValue::Boolean(*b),
        }
    }

    pub fn is(&self, other: &FieldValue) -> (r: bool)
        ensures
            r == (self@ == other@),
    {
        match (self, other) {
            (FieldValue::Text(a), FieldValue::Text(b)) => same(a.as_str(), b.as_str()),
            (FieldValue::Integer(a), FieldValue::Integer(b)) => *a == *b,
            (FieldValue::Boolean(a), FieldValue::Boolean(b)) => *a == *b,
            _ => false,
        }
    }
}

/// How a field is asked for.
#[derive(Debug)]
pub enum FieldKind {
    Input,
    Password,
    Select(Vec<String>, usize),
}

pub enum FieldKindView {
    Input,
    Password,
    Select(Seq<Seq<char>>, int),
}

impl View for FieldKind {
    type V = FieldKindView;

    open spec fn view(&self) -> FieldKindView {
        match *self {
            FieldKind::Input => FieldKindView::Input,
            FieldKind::Password => FieldKindView::Password,
            FieldKind::Select(options, default) => FieldKindView::Select(
                views(options@),
                default as int,
            ),
        }
    }
}

/// A field of a profile: its prompt, and the condition on another field under which it is
/// asked for.
#[derive(Debug)]
pub struct ConfigField {
    pub name: String,
    pub prompt: String,
    pub kind: FieldKind,
    pub required: bool,
    pub default: Option<String>,
    pub condition: Option<(String, FieldValue)>,
}

pub struct FieldView {
    pub name: Seq<char>,
    pub prompt: Seq<char>,
    pub kind: FieldKindView,
    pub required: bool,
    pub default: Option<Seq<char>>,
    pub condition: Option<(Seq<char>, FieldValueView)>,
}

pub open spec fn condition_view(c: Option<(String, FieldValue)>) -> Option<
    (Seq<char>, FieldValueView),
> {
    match c {
        Some(c) => Some((c.0@, c.1@)),
        None => None,
    }
}

impl View for ConfigField {
    type V = FieldView;

    open spec fn view(&self) -> FieldView {
        FieldView {
            name: self.name@,
            prompt: self.prompt@,
            kind: self.kind@,
            required: self.required,
            default: opt(self.default),
            condition: condition_view(self.condition),
        }
    }
}

pub open spec fn input_of(name: Seq<char>, prompt: Seq<char>) -> FieldView {
    FieldView {
        name,
        prompt,
        kind: FieldKindView::Input,
        required: true,
        default: None,
        condition: None,
    }
}

impl FieldView {
    pub open spec fn when_method(self, method: int) -> FieldView {
        FieldView {
            condition: Some(("auth_method"@, FieldValueView::Integer(method))),
            ..self
        }
    }
}

impl ConfigField {
    pub fn input(name: &str, prompt: &str) -> (r: ConfigField)
        ensures
            r@ == input_of(name@, prompt@),
    {
        ConfigField {
            name: name.to_owned(),
            prompt: prompt.to_owned(),
            kind: FieldKind::Input,
            required: true,
            default: None,
            condition: None,
        }
    }

    pub fn optional_input(name: &str, prompt: &str, default: Option<&str>) -> (r: ConfigField)
        ensures
            r@ == (FieldView {
                required: false,
                default: crate::json::opt_str(default),
                ..input_of(name@, prompt@)
            }),
    {
        let mut field = ConfigField::input(name, prompt);
        field.required = false;
        field.default = crate::json::owned(default);
        field
    }

    pub fn password(name: &str, prompt: &str) -> (r: ConfigField)
        ensures
            r@ == (FieldView { kind: FieldKindView::Password, ..input_of(name@, prompt@) }),
    {
        let mut field = ConfigField::input(name, prompt);
        field.kind = FieldKind::Password;
        field
    }

    pub fn select(name: &str, prompt: &str, options: Vec<String>, default: usize) -> (r:
        ConfigField)
        ensures
            r@ == (FieldView {
                kind: FieldKindView::Select(views(options@), default as int),
                ..input_of(name@, prompt@)
            }),
    {
        let mut field = ConfigField::input(name, prompt);
        field.kind = FieldKind::Select(options, default);
        field
    }

    pub fn optional(self) -> (r: ConfigField)
        ensures
            r@ == (FieldView { required: false, ..self@ }),
    {
        let mut field = self;
        field.required = false;
        field
    }

    pub fn when_field_equals(self, name: &str, value: FieldValue) -> (r: ConfigField)
        ensures
            r@ == (FieldView { condition: Some((name@, value@)), ..self@ }),
    {
        let mut field = self;
        field.condition = Some((name.to_owned(), value));
        field
    }
}

pub open spec fn fields_view(fields: Seq<ConfigField>) -> Seq<FieldView> {
    fields.map_values(|f: ConfigField| f@)
}

pub open spec fn auth_methods() -> Seq<Seq<char>> {
    Seq::empty().push("AWS default credential chain (env vars, instance/role, SSO)"@).push(
        "Named AWS profile"@,
    ).push("Access key pair"@)
}

/// What is asked for a profile, in order. The credentials come after the method that they
/// are for.
pub open spec fn athena_fields() -> Seq<FieldView> {
    Seq::empty().push(input_of("region_name"@, "AWS region of your Athena instance"@)).push(
        input_of(
            "s3_staging_dir"@,
            "S3 location for Athena query results (e.g. s3://bucket/prefix/)"@,
        ),
    ).push(
        (FieldView {
            required: false,
            ..input_of(
                "s3_data_dir"@,
                "S3 location for table data (blank: under the staging dir)"@,
            )
        }),
    ).push(
        (FieldView {
            required: false,
            default: Some("awsdatacatalog"@),
            ..input_of("database"@, "Data catalog"@)
        }),
    ).push(input_of("schema"@, "Schema (Athena database, lowercase)"@)).push(
        (FieldView {
            required: false,
            ..input_of("work_group"@, "Athena workgroup (blank: account default)"@)
        }),
    ).push(
        (FieldView {
            kind: FieldKindView::Select(auth_methods(), AUTH_DEFAULT_CHAIN as int),
            ..input_of("auth_method"@, "Which authentication method would you like to use?"@)
        }),
    ).push(
        input_of("aws_profile_name"@, "AWS profile name"@).when_method(AUTH_PROFILE as int),
    ).push(
        input_of("aws_access_key_id"@, "AWS access key ID"@).when_method(AUTH_ACCESS_KEY as int),
    ).push(
        (FieldView {
            kind: FieldKindView::Password,
            ..input_of("aws_secret_access_key"@, "AWS secret access key"@)
        }).when_method(AUTH_ACCESS_KEY as int),
    ).push(
        (FieldView {
            kind: FieldKindView::Password,
            required: false,
            ..input_of("aws_session_token"@, "AWS session token (blank if none)"@)
        }).when_method(AUTH_ACCESS_KEY as int),
    )
}

fn push_field(fields: &mut Vec<ConfigField>, field: ConfigField)
    ensures
        fields_view(final(fields)@) == fields_view(old(fields)@).push(field@),
{
    let ghost before = fields_view(fields@);
    let ghost added = field@;
    fields.push(field);
    assert(fields_view(fields@) =~= before.push(added));
}

fn auth_method_names() -> (r: Vec<String>)
    ensures
        views(r@) == auth_methods(),
{
    let mut r: Vec<String> = Vec::new();
    r.push("AWS default credential chain (env vars, instance/role, SSO)".to_owned());
    r.push("Named AWS profile".to_owned());
    r.push("Access key pair".to_owned());
    assert(views(r@) =~= auth_methods());
    r
}

// ---------------------------------------------------------------------------
// The profile
// ---------------------------------------------------------------------------

#[derive(Debug)]
pub enum StringOrInteger {
    Text(String),
    Integer(i64),
}

pub enum StringOrIntegerView {
    Text(Seq<char>),
    Integer(int),
}

pub open spec fn threads_view(t: Option<StringOrInteger>) -> Option<StringOrIntegerView> {
    match t {
        Some(StringOrInteger::Text(s)) => Some(StringOrIntegerView::Text(s@)),
        Some(StringOrInteger::Integer(n)) => Some(StringOrIntegerView::Integer(n as int)),
        None => None,
    }
}

#[derive(Debug)]
pub struct AthenaDbConfig {
    pub region_name: Option<String>,
    pub s3_staging_dir: Option<String>,
    pub s3_data_dir: Option<String>,
    pub database: Option<String>,
    pub schema: Option<String>,
    pub work_group: Option<String>,
    pub aws_profile_name: Option<String>,
    pub aws_access_key_id: Option<String>,
    pub aws_secret_access_key: Option<String>,
    pub aws_session_token: Option<String>,
    pub threads: Option<StringOrInteger>,
}

pub struct ProfileView {
    pub region_name: Option<Seq<char>>,
    pub s3_staging_dir: Option<Seq<char>>,
    pub s3_data_dir: Option<Seq<char>>,
    pub database: Option<Seq<char>>,
    pub schema: Option<Seq<char>>,
    pub work_group: Option<Seq<char>>,
    pub aws_profile_name: Option<Seq<char>>,
    pub aws_access_key_id: Option<Seq<char>>,
    pub aws_secret_access_key: Option<Seq<char>>,
    pub aws_session_token: Option<Seq<char>>,
    pub threads: Option<StringOrIntegerView>,
}

impl View for AthenaDbConfig {
    type V = ProfileView;

    open spec fn view(&self) -> ProfileView {
        ProfileView {
            region_name: opt(self.region_name),
            s3_staging_dir: opt(self.s3_staging_dir),
            s3_data_dir: opt(self.s3_data_dir),
            database: opt(self.database),
            schema: opt(self.schema),
            work_group: opt(self.work_group),
            aws_profile_name: opt(self.aws_profile_name),
            aws_access_key_id: opt(self.aws_access_key_id),
            aws_secret_access_key: opt(self.aws_secret_access_key),
            aws_session_token: opt(self.aws_session_token),
            threads: threads_view(self.threads),
        }
    }
}

/// A profile in which nothing is set.
pub open spec fn blank() -> ProfileView {
    ProfileView {
        region_name: None,
        s3_staging_dir: None,
        s3_data_dir: None,
        database: None,
        schema: None,
        work_group: None,
        aws_profile_name: None,
        aws_access_key_id: None,
        aws_secret_access_key: None,
        aws_session_token: None,
        threads: None,
    }
}

pub open spec fn non_blank(s: Seq<char>) -> Option<Seq<char>> {
    if s.len() == 0 {
        None
    } else {
        Some(s)
    }
}

pub open spec fn text_value(s: Option<Seq<char>>) -> Option<FieldValueView> {
    match s {
        Some(s) => Some(FieldValueView::Text(s)),
        None => None,
    }
}

/// The value of a field. The method is told by the credentials that are set.
pub open spec fn field_value(c: ProfileView, name: Seq<char>) -> Option<FieldValueView> {
    if name == "region_name"@ {
        text_value(c.region_name)
    } else if name == "s3_staging_dir"@ {
        text_value(c.s3_staging_dir)
    } else if name == "s3_data_dir"@ {
        text_value(c.s3_data_dir)
    } else if name == "database"@ {
        text_value(c.database)
    } else if name == "schema"@ {
        text_value(c.schema)
    } else if name == "work_group"@ {
        text_value(c.work_group)
    } else if name == "aws_profile_name"@ {
        text_value(c.aws_profile_name)
    } else if name == "aws_access_key_id"@ {
        text_value(c.aws_access_key_id)
    } else if name == "aws_secret_access_key"@ {
        text_value(c.aws_secret_access_key)
    } else if name == "aws_session_token"@ {
        text_value(c.aws_session_token)
    } else if name == "auth_method"@ {
        if c.aws_access_key_id is Some {
            Some(FieldValueView::Integer(AUTH_ACCESS_KEY as int))
        } else if c.aws_profile_name is Some {
            Some(FieldValueView::Integer(AUTH_PROFILE as int))
        } else {
            None
        }
    } else {
        None
    }
}

/// A profile without the credentials of the other methods.
pub open spec fn with_method(c: ProfileView, method: int) -> ProfileView {
    let keys = method == AUTH_ACCESS_KEY;
    ProfileView {
        aws_profile_name: if method == AUTH_PROFILE {
            c.aws_profile_name
        } else {
            None
        },
        aws_access_key_id: if keys {
            c.aws_access_key_id
        } else {
            None
        },
        aws_secret_access_key: if keys {
            c.aws_secret_access_key
        } else {
            None
        },
        aws_session_token: if keys {
            c.aws_session_token
        } else {
            None
        },
        ..c
    }
}

/// A profile after a text was set.
pub open spec fn with_text(c: ProfileView, name: Seq<char>, s: Seq<char>) -> ProfileView {
    if name == "region_name"@ {
        ProfileView { region_name: Some(s), ..c }
    } else if name == "s3_staging_dir"@ {
        ProfileView { s3_staging_dir: Some(s), ..c }
    } else if name == "s3_data_dir"@ {
        ProfileView { s3_data_dir: non_blank(s), ..c }
    } else if name == "database"@ {
        ProfileView { database: non_blank(s), ..c }
    } else if name == "schema"@ {
        ProfileView { schema: Some(s), ..c }
    } else if name == "work_group"@ {
        ProfileView { work_group: non_blank(s), ..c }
    } else if name == "aws_profile_name"@ {
        ProfileView { aws_profile_name: Some(s), ..c }
    } else if name == "aws_access_key_id"@ {
        ProfileView { aws_access_key_id: Some(s), ..c }
    } else if name == "aws_secret_access_key"@ {
        ProfileView { aws_secret_access_key: Some(s), ..c }
    } else if name == "aws_session_token"@ {
        ProfileView { aws_session_token: non_blank(s), ..c }
    } else {
        c
    }
}

/// A profile after a value was set. Values of other types than the field's change nothing,
/// nor do fields that the profile does not hold.
pub open spec fn with_value(c: ProfileView, name: Seq<char>, value: FieldValueView) -> ProfileView {
    match value {
        FieldValueView::Text(s) => with_text(c, name, s),
        FieldValueView::Integer(method) => if name == "auth_method"@ {
            with_method(c, method)
        } else {
            c
        },
        FieldValueView::Boolean(_) => c,
    }
}

fn non_empty(s: String) -> (r: Option<String>)
    ensures
        opt(r) == non_blank(s@),
{
    if s.as_str().unicode_len() == 0 {
        None
    } else {
        Some(s)
    }
}

fn text_of(s: &Option<String>) -> (r: Option<FieldValue>)
    ensures
        value_view(r) == text_value(opt(*s)),
{
    match s {
        Some(s) => Some(FieldValue::Text(s.clone())),
        None => None,
    }
}

fn copied(s: &Option<String>) -> (r: Option<String>)
    ensures
        opt(r) == opt(*s),
{
    match s {
        Some(s) => Some(s.clone()),
        None => None,
    }
}

impl AthenaDbConfig {
    pub fn blank() -> (r: AthenaDbConfig)
        ensures
            r@ == blank(),
    {
        AthenaDbConfig {
            region_name: None,
            s3_staging_dir: None,
            s3_data_dir: None,
            database: None,
            schema: None,
            work_group: None,
            aws_profile_name: None,
            aws_access_key_id: None,
            aws_secret_access_key: None,
            aws_session_token: None,
            threads: None,
        }
    }

    pub fn copy(&self) -> (r: AthenaDbConfig)
        ensures
            r@ == self@,
    {
        AthenaDbConfig {
            region_name: copied(&self.region_name),
            s3_staging_dir: copied(&self.s3_staging_dir),
            s3_data_dir: copied(&self.s3_data_dir),
            database: copied(&self.database),
            schema: copied(&self.schema),
            work_group: copied(&self.work_group),
            aws_profile_name: copied(&self.aws_profile_name),
            aws_access_key_id: copied(&self.aws_access_key_id),
            aws_secret_access_key: copied(&self.aws_secret_access_key),
            aws_session_token: copied(&self.aws_session_token),
            threads: match &self.threads {
                Some(StringOrInteger::Text(s)) => Some(StringOrInteger::Text(s.clone())),
                Some(StringOrInteger::Integer(n)) => Some(StringOrInteger::Integer(*n)),
                None => None,
            },
        }
    }

    pub fn get_fields() -> (r: Vec<ConfigField>)
        ensures
            fields_view(r@) == athena_fields(),
    {
        let mut r: Vec<ConfigField> = Vec::new();
        assert(fields_view(r@) =~= Seq::empty());
        push_field(&mut r, ConfigField::input("region_name", "AWS region of your Athena instance"));
        push_field(
            &mut r,
            ConfigField::input(
                "s3_staging_dir",
                "S3 location for Athena query results (e.g. s3://bucket/prefix/)",
            ),
        );
        push_field(
            &mut r,
            ConfigField::optional_input(
                "s3_data_dir",
                "S3 location for table data (blank: under the staging dir)",
                None,
            ),
        );
        push_field(
            &mut r,
            ConfigField::optional_input("database", "Data catalog", Some("awsdatacatalog")),
        );
        push_field(&mut r, ConfigField::input("schema", "Schema (Athena database, lowercase)"));
        push_field(
            &mut r,
            ConfigField::optional_input(
                "work_group",
                "Athena workgroup (blank: account default)",
                None,
            ),
        );
        push_field(
            &mut r,
            ConfigField::select(
                "auth_method",
                "Which authentication method would you like to use?",
                auth_method_names(),
                0,
            ),
        );
        push_field(
            &mut r,
            ConfigField::input("aws_profile_name", "AWS profile name").when_field_equals(
                "auth_method",
                FieldValue::Integer(AUTH_PROFILE),
            ),
        );
        push_field(
            &mut r,
            ConfigField::input("aws_access_key_id", "AWS access key ID").when_field_equals(
                "auth_method",
                FieldValue::Integer(AUTH_ACCESS_KEY),
            ),
        );
        push_field(
            &mut r,
            ConfigField::password(
                "aws_secret_access_key",
                "AWS secret access key",
            ).when_field_equals("auth_method", FieldValue::Integer(AUTH_ACCESS_KEY)),
        );
        push_field(
            &mut r,
            ConfigField::password(
                "aws_session_token",
                "AWS session token (blank if none)",
            ).optional().when_field_equals("auth_method", FieldValue::Integer(AUTH_ACCESS_KEY)),
        );
        r
    }

    fn set_text(&mut self, field_name: &str, s: String)
        ensures
            final(self)@ == with_text(old(self)@, field_name@, s@),
    {
        if same(field_name, "region_name") {
            self.region_name = Some(s);
        } else if same(field_name, "s3_staging_dir") {
            self.s3_staging_dir = Some(s);
        } else if same(field_name, "s3_data_dir") {
            self.s3_data_dir = non_empty(s);
        } else if same(field_name, "database") {
            self.database = non_empty(s);
        } else if same(field_name, "schema") {
            self.schema = Some(s);
        } else if same(field_name, "work_group") {
            self.work_group = non_empty(s);
        } else if same(field_name, "aws_profile_name") {
            self.aws_profile_name = Some(s);
        } else if same(field_name, "aws_access_key_id") {
            self.aws_access_key_id = Some(s);
        } else if same(field_name, "aws_secret_access_key") {
            self.aws_secret_access_key = Some(s);
        } else if same(field_name, "aws_session_token") {
            self.aws_session_token = non_empty(s);
        }
    }

    /// Sets a field. Selecting a method clears the credentials of the other methods: keys win
    /// over a profile name, so that a stale key pair left in place would silently override
    /// a chosen profile.
    pub fn set_field(&mut self, field_name: &str, value: FieldValue)
        ensures
            final(self)@ == with_value(old(self)@, field_name@, value@),
    {
        match value {
            FieldValue::Text(s) => self.set_text(field_name, s),
            FieldValue::Integer(method) => if same(field_name, "auth_method") {
                if method != AUTH_PROFILE {
                    self.aws_profile_name = None;
                }
                if method != AUTH_ACCESS_KEY {
                    self.aws_access_key_id = None;
                    self.aws_secret_access_key = None;
                    self.aws_session_token = None;
                }
            },
            FieldValue::Boolean(_) => {},
        }
    }

    pub fn get_field(&self, field_name: &str) -> (r: Option<FieldValue>)
        ensures
            value_view(r) == field_value(self@, field_name@),
    {
        if same(field_name, "region_name") {
            text_of(&self.region_name)
        } else if same(field_name, "s3_staging_dir") {
            text_of(&self.s3_staging_dir)
        } else if same(field_name, "s3_data_dir") {
            text_of(&self.s3_data_dir)
        } else if same(field_name, "database") {
            text_of(&self.database)
        } else if same(field_name, "schema") {
            text_of(&self.schema)
        } else if same(field_name, "work_group") {
            text_of(&self.work_group)
        } else if same(field_name, "aws_profile_name") {
            text_of(&self.aws_profile_name)
        } else if same(field_name, "aws_access_key_id") {
            text_of(&self.aws_access_key_id)
        } else if same(field_name, "aws_secret_access_key") {
            text_of(&self.aws_secret_access_key)
        } else if same(field_name, "aws_session_token") {
            text_of(&self.aws_session_token)
        } else if same(field_name, "auth_method") {
            if self.aws_access_key_id.is_some() {
                Some(FieldValue::Integer(AUTH_ACCESS_KEY))
            } else if self.aws_profile_name.is_some() {
                Some(FieldValue::Integer(AUTH_PROFILE))
            } else {
                None
            }
        } else {
            None
        }
    }

    pub fn is_field_set(&self, field_name: &str) -> (r: bool)
        ensures
            r == (field_value(self@, field_name@) is Some),
    {
        self.get_field(field_name).is_some()
    }
}

// ---------------------------------------------------------------------------
// Answers
// ---------------------------------------------------------------------------

pub open spec fn answers_view(a: Seq<(String, FieldValue)>) -> Seq<(Seq<char>, FieldValueView)> {
    a.map_values(|v: (String, FieldValue)| (v.0@, v.1@))
}

/// The answer for a field.
pub open spec fn answered(a: Seq<(Seq<char>, FieldValueView)>, name: Seq<char>, i: int) -> Option<
    FieldValueView,
>
    decreases a.len() - i,
{
    if i < 0 || i >= a.len() {
        None
    } else if a[i].0 == name {
        Some(a[i].1)
    } else {
        answered(a, name, i + 1)
    }
}

/// The field is asked for: it has no condition, or the field of its condition has the
/// value that it takes. An answer tells that value before the profile does.
pub open spec fn is_asked(
    field: FieldView,
    c: ProfileView,
    a: Seq<(Seq<char>, FieldValueView)>,
) -> bool {
    match field.condition {
        None => true,
        Some((name, value)) => match answered(a, name, 0) {
            Some(v) => v == value,
            None => field_value(c, name) == Some(value),
        },
    }
}

/// The profile after the answers for the fields from a place on.
pub open spec fn applied(
    fields: Seq<FieldView>,
    c: ProfileView,
    a: Seq<(Seq<char>, FieldValueView)>,
    i: int,
) -> ProfileView
    decreases fields.len() - i,
{
    if i < 0 || i >= fields.len() {
        c
    } else {
        let next = match answered(a, fields[i].name, 0) {
            Some(v) => if is_asked(fields[i], c, a) {
                with_value(c, fields[i].name, v)
            } else {
                c
            },
            None => c,
        };
        applied(fields, next, a, i + 1)
    }
}

fn answer<'a>(answers: &'a Vec<(String, FieldValue)>, name: &str) -> (r: Option<&'a FieldValue>)
    ensures
        (match r {
            Some(v) => Some(v@),
            None => None,
        }) == answered(answers_view(answers@), name@, 0),
{
    let ghost all = answers_view(answers@);
    let mut i: usize = 0;
    while i < answers.len()
        invariant
            i <= answers.len(),
            all == answers_view(answers@),
            answered(all, name@, 0) == answered(all, name@, i as int),
        decreases answers.len() - i,
    {
        assert(all[i as int] == (answers@[i as int].0@, answers@[i as int].1@));
        if same(answers[i].0.as_str(), name) {
            return Some(&answers[i].1);
        }
        i += 1;
    }
    None
}

impl ConfigField {
    pub fn is_asked(&self, config: &AthenaDbConfig, answers: &Vec<(String, FieldValue)>) -> (r:
        bool)
        ensures
            r == is_asked(self@, config@, answers_view(answers@)),
    {
        match &self.condition {
            None => true,
            Some(condition) => match answer(answers, condition.0.as_str()) {
                Some(v) => v.is(&condition.1),
                None => match config.get_field(condition.0.as_str()) {
                    Some(v) => v.is(&condition.1),
                    None => false,
                },
            },
        }
    }
}

/// Applies the answers to a profile, field by field in the order in which they are asked.
pub fn apply_values(config: &AthenaDbConfig, values: &Vec<(String, FieldValue)>) -> (r:
    AthenaDbConfig)
    ensures
        r@ == applied(athena_fields(), config@, answers_view(values@), 0),
{
    let fields = AthenaDbConfig::get_fields();
    let ghost all = fields_view(fields@);
    let ghost a = answers_view(values@);
    let mut made = config.copy();
    let mut i: usize = 0;
    while i < fields.len()
        invariant
            i <= fields.len(),
            all == fields_view(fields@),
            a == answers_view(values@),
            applied(all, config@, a, 0) == applied(all, made@, a, i as int),
        decreases fields.len() - i,
    {
        let field = &fields[i];
        assert(all[i as int] == field@);
        if let Some(value) = answer(values, field.name.as_str()) {
            if field.is_asked(&made, values) {
                made.set_field(field.name.as_str(), value.copy());
            }
        }
        i += 1;
    }
    made
}

pub open spec fn with_default_threads(c: ProfileView) -> ProfileView {
    if c.threads is None {
        ProfileView { threads: Some(StringOrIntegerView::Integer(1)), ..c }
    } else {
        c
    }
}

/// Sets a profile up from the answers, beginning with an existing one where there is one.
pub fn setup_athena_profile(
    existing_config: Option<&AthenaDbConfig>,
    answers: &Vec<(String, FieldValue)>,
) -> (r: AthenaDbConfig)
    ensures
        r@ == with_default_threads(
            applied(
                athena_fields(),
                match existing_config {
                    Some(c) => c@,
                    None => blank(),
                },
                answers_view(answers@),
                0,
            ),
        ),
{
    let mut config = match existing_config {
        Some(c) => apply_values(c, answers),
        None => apply_values(&AthenaDbConfig::blank(), answers),
    };
    if config.threads.is_none() {
        config.threads = Some(StringOrInteger::Integer(default_threads()));
    }
    config
}

pub fn default_threads() -> (r: i64)
    ensures
        r == 1,
{
    1
}

// ---------------------------------------------------------------------------
// Laws
// ---------------------------------------------------------------------------

/// The profile holds no credentials of another method.
pub open spec fn holds_no_other(c: ProfileView, method: int) -> bool {
    &&& method != AUTH_PROFILE ==> c.aws_profile_name is None
    &&& method != AUTH_ACCESS_KEY ==> c.aws_access_key_id is None && c.aws_secret_access_key is None
        && c.aws_session_token is None
}

proof fn credentials_stay_cleared(
    c: ProfileView,
    a: Seq<(Seq<char>, FieldValueView)>,
    method: int,
    i: int,
)
    requires
        answered(a, "auth_method"@, 0) == Some(FieldValueView::Integer(method)),
        holds_no_other(c, method),
        7 <= i <= 11,
    ensures
        holds_no_other(applied(athena_fields(), c, a, i), method),
    decreases 11 - i,
{
    let f = athena_fields();
    if i < 11 {
        let next = match answered(a, f[i].name, 0) {
            Some(v) => if is_asked(f[i], c, a) {
                with_value(c, f[i].name, v)
            } else {
                c
            },
            None => c,
        };
        assert(holds_no_other(next, method)) by {
            reveal_strlit("auth_method");
            reveal_strlit("aws_profile_name");
            reveal_strlit("aws_access_key_id");
            reveal_strlit("aws_secret_access_key");
            reveal_strlit("aws_session_token");
            assert("auth_method"@.len() == 11);
            assert("aws_profile_name"@.len() == 16);
            assert("aws_access_key_id"@.len() == 17);
            assert("aws_secret_access_key"@.len() == 21);
            assert("aws_session_token"@.len() == 17);
            assert("aws_access_key_id"@[4] != "aws_session_token"@[4]);
        }
        credentials_stay_cleared(next, a, method, i + 1);
    }
}

proof fn credentials_are_cleared(
    c: ProfileView,
    a: Seq<(Seq<char>, FieldValueView)>,
    method: int,
    i: int,
)
    requires
        answered(a, "auth_method"@, 0) == Some(FieldValueView::Integer(method)),
        0 <= i <= 6,
    ensures
        holds_no_other(applied(athena_fields(), c, a, i), method),
    decreases 6 - i,
{
    let f = athena_fields();
    let next = match answered(a, f[i].name, 0) {
        Some(v) => if is_asked(f[i], c, a) {
            with_value(c, f[i].name, v)
        } else {
            c
        },
        None => c,
    };
    if i < 6 {
        credentials_are_cleared(next, a, method, i + 1);
    } else {
        credentials_stay_cleared(next, a, method, i + 1);
    }
}

/// The method whose credentials the profile holds is the one that was answered: those of
/// the other methods are gone, whatever the profile held before and whatever else was
/// answered.
pub proof fn other_credentials_are_cleared(
    c: ProfileView,
    a: Seq<(Seq<char>, FieldValueView)>,
    method: int,
)
    requires
        answered(a, "auth_method"@, 0) == Some(FieldValueView::Integer(method)),
    ensures
        holds_no_other(applied(athena_fields(), c, a, 0), method),
{
    credentials_are_cleared(c, a, method, 0);
}

/// The field holds text.
pub open spec fn holds_text(name: Seq<char>) -> bool {
    ||| name == "region_name"@
    ||| name == "s3_staging_dir"@
    ||| name == "s3_data_dir"@
    ||| name == "database"@
    ||| name == "schema"@
    ||| name == "work_group"@
    ||| name == "aws_profile_name"@
    ||| name == "aws_access_key_id"@
    ||| name == "aws_secret_access_key"@
    ||| name == "aws_session_token"@
}

/// The field holds text that a blank answer clears.
pub open spec fn may_be_blank(name: Seq<char>) -> bool {
    ||| name == "s3_data_dir"@
    ||| name == "database"@
    ||| name == "work_group"@
    ||| name == "aws_session_token"@
}

/// A text that is set is read back, but for a blank one that clears the field.
pub proof fn a_set_text_is_read_back(c: ProfileView, name: Seq<char>, s: Seq<char>)
    requires
        holds_text(name),
    ensures
        field_value(with_value(c, name, FieldValueView::Text(s)), name) == (if may_be_blank(name) {
            text_value(non_blank(s))
        } else {
            Some(FieldValueView::Text(s))
        }),
{
    reveal_strlit("region_name");
    reveal_strlit("s3_staging_dir");
    reveal_strlit("s3_data_dir");
    reveal_strlit("database");
    reveal_strlit("schema");
    reveal_strlit("work_group");
    reveal_strlit("aws_profile_name");
    reveal_strlit("aws_access_key_id");
    reveal_strlit("aws_secret_access_key");
    reveal_strlit("aws_session_token");
    assert("s3_data_dir"@.len() == 11 && "database"@.len() == 8 && "work_group"@.len() == 10
        && "aws_session_token"@.len() == 17 && "region_name"@.len() == 11
        && "s3_staging_dir"@.len() == 14 && "schema"@.len() == 6 && "aws_profile_name"@.len() == 16
        && "aws_access_key_id"@.len() == 17 && "aws_secret_access_key"@.len() == 21);
    assert("region_name"@[0] != "s3_data_dir"@[0]);
    assert("aws_access_key_id"@[4] != "aws_session_token"@[4]);
}

} // verus!
