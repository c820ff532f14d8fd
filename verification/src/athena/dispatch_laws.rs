//! What a method of the adapter does with its arguments.

use crate::athena::cleanup::cleaned_up;
use crate::athena::dispatch::{
    asked_clean_up, asked_docs, asked_expiry, asked_grants, asked_location, asked_tags, asked_type,
    limited_query, location_failure, named_catalog, repeated_query, run, seed_uploaded,
    unless_parsing, Adapter, MethodErrorView, QueryStepView, StepView,
};
use crate::athena::docs::{argument_text, count_of, entries_of, flag, model_docs};
use crate::athena::driver::{OpsErrorKind, OpsErrorView, ProgressView, ReplyView};
use crate::athena::glue::{GlueTableView, RelationParts};
use crate::athena::methods::{
    conditions_of, entry_texts, limit_outcome, location_with, more_runs, query_view,
    LocationErrorView, QueryStats, S3Profile,
};
use crate::athena::persist::persisted;
use crate::athena::s3::{bucket_of, prefix_of};
use crate::athena::storage::{base64_text, uploaded};
use crate::athena::table_type::TableType;
use crate::athena::versions::expired_versions;
use crate::text::contains;
use crate::value::{attribute, missing, Value};
use vstd::prelude::*;

verus! {

/// A conversation ends in its answer or its error; its questions are asked on.
pub proof fn conversations_are_handed_on(
    r: crate::athena::driver::RequestView,
    e: OpsErrorView,
    n: int,
)
    ensures
        run(ProgressView::<()>::Ask(r)) == StepView::<()>::Ask(r),
        run(ProgressView::Got((), n)) == StepView::Done(()),
        run(ProgressView::<()>::Fail(e, n)) == StepView::<()>::Failed(
            MethodErrorView::Operation(e),
        ),
        unless_parsing(true, ProgressView::<()>::Ask(r)) == StepView::Done(()),
        unless_parsing(true, ProgressView::<()>::Fail(e, n)) == StepView::Done(()),
        unless_parsing(false, ProgressView::<()>::Ask(r)) == StepView::<()>::Ask(r),
        unless_parsing(false, ProgressView::<()>::Fail(e, n)) == StepView::<()>::Failed(
            MethodErrorView::Operation(e),
        ),
{
}

/// A location goes by the texts of its arguments, each in its own place; what is missing or
/// empty is not given.
pub proof fn locations_go_by_their_arguments(
    profile: S3Profile,
    relation: RelationParts,
    data: Option<Value>,
    naming: Option<Value>,
    tmp: Option<Value>,
    external: Option<Value>,
    temporary: Option<Value>,
    unique: Seq<char>,
    v: Value,
)
    ensures
        (match location_with(
            profile,
            relation,
            argument_text(data),
            argument_text(naming),
            argument_text(tmp),
            argument_text(external),
            flag(temporary),
            unique,
        ) {
            Ok(l) => asked_location(
                profile,
                relation,
                data,
                naming,
                tmp,
                external,
                temporary,
                unique,
            ) == Ok::<Seq<char>, MethodErrorView>(l),
            Err(e) => asked_location(
                profile,
                relation,
                data,
                naming,
                tmp,
                external,
                temporary,
                unique,
            ) is Err,
        }),
        argument_text(None) is None,
        missing(v) || v.text@.len() == 0 ==> argument_text(Some(v)) is None,
        !missing(v) && v.text@.len() > 0 ==> argument_text(Some(v)) == Some(v.text@),
        location_failure(LocationErrorView::Invalid(unique)) == MethodErrorView::Invalid(unique),
        location_failure(LocationErrorView::Configuration(unique)) == MethodErrorView::Operation(
            OpsErrorView { kind: OpsErrorKind::Configuration, message: unique },
        ),
{
}

/// A seed is uploaded as a file with its name at the location of its table, whole, and the
/// location is answered.
pub proof fn seeds_are_uploaded_to_their_location(
    adapter: Adapter,
    relation: RelationParts,
    body: Seq<u8>,
    data: Option<Value>,
    naming: Option<Value>,
    external: Option<Value>,
    arguments: Option<Value>,
    unique: Seq<char>,
    location: Seq<char>,
    replies: Seq<ReplyView>,
)
    requires
        !adapter.parsing,
        entries_of(arguments) is Ok,
        asked_location(
            adapter.profile,
            relation,
            data,
            naming,
            None,
            external,
            None,
            unique,
        ) == Ok::<Seq<char>, MethodErrorView>(location),
    ensures
        ({
            let step = seed_uploaded(
                adapter,
                relation,
                body,
                data,
                naming,
                external,
                arguments,
                unique,
                replies,
            );
            match uploaded(
                bucket_of(location),
                prefix_of(location) + relation.identifier@ + ".csv"@,
                base64_text(body),
                entry_texts(entries_of(arguments)->Ok_0),
                replies,
                0,
            ) {
                ProgressView::Ask(r) => step == StepView::<Option<Seq<char>>>::Ask(r),
                ProgressView::Got(_, _) => step == StepView::Done(Some(location)),
                ProgressView::Fail(e, _) => step == StepView::<Option<Seq<char>>>::Failed(
                    MethodErrorView::Operation(e),
                ),
            }
        }),
{
}

/// Arguments that cannot be read are refused even while the project is parsed.
pub proof fn wrong_arguments_are_refused(
    parsing: bool,
    relation: RelationParts,
    value: Value,
    delete_s3: bool,
    replies: Seq<ReplyView>,
)
    ensures
        count_of(value, "to_keep"@) is Err ==> (asked_expiry(
            parsing,
            relation,
            value,
            delete_s3,
            replies,
        ) matches StepView::Failed(MethodErrorView::Invalid(_))),
        count_of(value, "to_keep"@) matches Ok(n) ==> {
            &&& parsing ==> asked_expiry(parsing, relation, value, delete_s3, replies)
                == StepView::Done(Seq::<Seq<char>>::empty())
            &&& !parsing ==> asked_expiry(parsing, relation, value, delete_s3, replies) == run(
                expired_versions(relation, n, delete_s3, replies, 0),
            )
        },
        conditions_of(value) is Err ==> (asked_clean_up(
            parsing,
            relation,
            value,
            replies,
        ) matches StepView::Failed(MethodErrorView::Invalid(_))),
        conditions_of(value) matches Ok(conditions) ==> {
            &&& parsing ==> asked_clean_up(parsing, relation, value, replies) == StepView::Done(())
            &&& !parsing ==> asked_clean_up(parsing, relation, value, replies) == run(
                cleaned_up(relation, conditions, replies, 0),
            )
        },
{
}

/// The documentation of a model is read from its own arguments, each in its place.
pub proof fn docs_are_read_and_written(
    relation: RelationParts,
    model: Value,
    table: Option<Value>,
    columns: Option<Value>,
    skip: Option<Value>,
    project: Option<Value>,
    replies: Seq<ReplyView>,
)
    ensures
        match model_docs(model, table, columns, skip, project) {
            Ok(docs) => asked_docs(
                false,
                relation,
                model,
                table,
                columns,
                skip,
                project,
                replies,
            ) == run(persisted(relation, docs, replies, 0)),
            Err(e) => asked_docs(
                false,
                relation,
                model,
                table,
                columns,
                skip,
                project,
                replies,
            ) == StepView::<()>::Failed(MethodErrorView::Invalid(e)),
        },
{
}

/// The type of a table is answered where there is a table.
pub proof fn types_are_answered(table: GlueTableView, n: int, name: Seq<char>)
    ensures
        asked_type(false, ProgressView::Got(Some(table), n)) == StepView::Done(
            Some(table.table_type),
        ),
        asked_type(false, ProgressView::Got(None, n)) == StepView::Done(None::<TableType>),
        asked_type(true, ProgressView::Got(Some(table), n)) == StepView::Done(None::<TableType>),
        named_catalog(Some(name)) == name,
        named_catalog(None) == "awsdatacatalog"@,
{
}

/// Tags and grants of Lake Formation that are switched on are not supported yet; those
/// that are switched off need nothing.
pub proof fn lake_formation_is_switched(config: Value)
    ensures
        !(attribute(config, "enabled"@) matches Some(a) && a.truthy) ==> asked_tags(config)
            == StepView::Done(()),
        (attribute(config, "enabled"@) matches Some(a) && a.truthy) ==> asked_tags(
            config,
        ) is Failed,
        (attribute(config, "data_cell_filters"@) matches Some(f) && (attribute(
            f,
            "enabled"@,
        ) matches Some(a) && a.truthy)) ==> (asked_grants(config) matches StepView::Failed(
            MethodErrorView::NotSupported(_),
        )),
        !(attribute(config, "data_cell_filters"@) matches Some(f) && (attribute(
            f,
            "enabled"@,
        ) matches Some(a) && a.truthy)) ==> asked_grants(config) == StepView::Done(()),
{
}

/// A statement is run once, and again only where Iceberg asks for it; an error that is none
/// of these stays one.
pub proof fn statements_are_run_again(
    op: Seq<char>,
    message: String,
    outcome: Result<QueryStats, String>,
)
    ensures
        limited_query(false, None) == QueryStepView::Execute,
        limited_query(true, Some(outcome)) == QueryStepView::Done(None),
        (match limit_outcome(query_view(outcome)) {
            Ok(answer) => limited_query(false, Some(outcome)) == QueryStepView::Done(Some(answer)),
            Err(e) => limited_query(false, Some(outcome)) == QueryStepView::Failed(e),
        }),
        repeated_query(false, op, None) == QueryStepView::Execute,
        repeated_query(false, op, Some(Ok(()))) == QueryStepView::Done(None),
        contains(message@, more_runs(op)) ==> repeated_query(false, op, Some(Err(message)))
            == QueryStepView::Execute,
        !contains(message@, more_runs(op)) ==> repeated_query(false, op, Some(Err(message)))
            == QueryStepView::Failed(message@),
{
}

/// Versions are expired down to the number that is given, and none while parsing.
pub proof fn versions_are_expired_on_request(
    relation: RelationParts,
    to_keep: Value,
    delete_s3: bool,
    replies: Seq<ReplyView>,
)
    ensures
        count_of(to_keep, "to_keep"@) matches Err(e) ==> asked_expiry(
            true,
            relation,
            to_keep,
            delete_s3,
            replies,
        ) == StepView::<Seq<Seq<char>>>::Failed(MethodErrorView::Invalid(e)),
        count_of(to_keep, "to_keep"@) matches Ok(n) ==> {
            &&& asked_expiry(true, relation, to_keep, delete_s3, replies) == StepView::Done(
                Seq::<Seq<char>>::empty(),
            )
            &&& asked_expiry(false, relation, to_keep, delete_s3, replies) == run(
                expired_versions(relation, n, delete_s3, replies, 0),
            )
        },
{
}

} // verus!
