//! Deleting the partitions of a table that satisfy conditions.

use crate::athena::driver::{
    fail, failed, replies_view, then_do, within, OpsErrorKind, Progress, ProgressView, Reply,
    ReplyView,
};
use crate::athena::glue::{
    catalog_id, location_at, location_of, opt_as_str, scope, scope_fields, AthenaOps, RelationParts,
};
use crate::athena::storage::deleted_paths;
use crate::athena::swap::{deleted_partitions, partitions};
use crate::json::{items_view, opt, Fields, FieldsView, Json, JsonView};
use crate::number::{decimal, decimal_of};
use crate::text::{byte_len, head, head_of, join, joined, views};
use vstd::prelude::*;
use vstd::utf8::encode_utf8;

verus! {

/// The longest expression, in bytes, by which Glue selects partitions.
pub const GET_PARTITIONS_API_EXPRESSION_MAX_LENGTH: usize = 2048;

/// How many partitions are deleted at a time.
pub const PARTITION_PROCESSING_CHUNK_SIZE: usize = 1000;

// ---------------------------------------------------------------------------
// Expressions
// ---------------------------------------------------------------------------

pub open spec fn bracketed(condition: Seq<char>) -> Seq<char> {
    "("@ + condition + ")"@
}

/// An expression that Glue accepts by its length.
pub open spec fn fits(expression: Seq<char>) -> bool {
    encode_utf8(expression).len() <= GET_PARTITIONS_API_EXPRESSION_MAX_LENGTH
}

pub open spec fn any_of(conditions: Seq<Seq<char>>) -> Seq<char> {
    join(conditions, " or "@)
}

/// The conditions in brackets, in groups: a condition joins the last group where their
/// disjunction still fits, and starts a group of its own where it does not.
pub open spec fn groups(conditions: Seq<Seq<char>>) -> Seq<Seq<Seq<char>>>
    decreases conditions.len(),
{
    if conditions.len() == 0 {
        Seq::empty()
    } else {
        let before = groups(conditions.drop_last());
        let condition = bracketed(conditions.last());
        if before.len() > 0 && fits(any_of(before.last().push(condition))) {
            before.update(before.len() - 1, before.last().push(condition))
        } else {
            before.push(seq![condition])
        }
    }
}

pub open spec fn too_long(condition: Seq<char>) -> Seq<char> {
    "Partition condition exceeds the Glue API expression limit of "@ + decimal(
        GET_PARTITIONS_API_EXPRESSION_MAX_LENGTH as int,
    ) + " characters: '"@ + head(bracketed(condition), 100) + "...'"@
}

/// The first condition that no expression can hold.
pub open spec fn first_too_long(conditions: Seq<Seq<char>>) -> Option<Seq<char>>
    decreases conditions.len(),
{
    if conditions.len() == 0 {
        None
    } else if !fits(bracketed(conditions[0])) {
        Some(conditions[0])
    } else {
        first_too_long(conditions.drop_first())
    }
}

/// The expressions that select the partitions satisfying any of the conditions. A
/// condition that is too long by itself is refused.
pub open spec fn expressions(conditions: Seq<Seq<char>>) -> Result<Seq<Seq<char>>, Seq<char>> {
    match first_too_long(conditions) {
        Some(condition) => Err(too_long(condition)),
        None => Ok(groups(conditions).map_values(|g: Seq<Seq<char>>| any_of(g))),
    }
}

/// The groups one after another.
pub open spec fn flat(groups: Seq<Seq<Seq<char>>>) -> Seq<Seq<char>>
    decreases groups.len(),
{
    if groups.len() == 0 {
        Seq::empty()
    } else {
        flat(groups.drop_last()) + groups.last()
    }
}

/// The groups hold every condition once and in order, none is empty, and each gives an
/// expression that fits.
pub proof fn groups_hold_all(conditions: Seq<Seq<char>>)
    requires
        first_too_long(conditions) is None,
    ensures
        flat(groups(conditions)) == conditions.map_values(|c: Seq<char>| bracketed(c)),
        forall|i: int|
            0 <= i < groups(conditions).len() ==> (#[trigger] groups(conditions)[i]).len() > 0
                && fits(any_of(groups(conditions)[i])),
    decreases conditions.len(),
{
    if conditions.len() > 0 {
        let rest = conditions.drop_last();
        let last = conditions.last();
        prefix_fits(conditions);
        groups_hold_all(rest);
        let before = groups(rest);
        let after = groups(conditions);
        let b = bracketed(last);
        let want = conditions.map_values(|c: Seq<char>| bracketed(c));
        let had = rest.map_values(|c: Seq<char>| bracketed(c));
        assert(want =~= had.push(b));
        if before.len() > 0 && fits(any_of(before.last().push(b))) {
            assert(after.drop_last() =~= before.drop_last());
            assert(flat(after) =~= flat(before).push(b));
        } else {
            assert(after.drop_last() =~= before);
            assert(flat(after) =~= flat(before).push(b));
            assert(any_of(seq![b]) == b);
        }
    } else {
        assert(flat(groups(conditions)) =~= conditions.map_values(
            |c: Seq<char>| bracketed(c),
        ));
    }
}

proof fn prefix_fits(conditions: Seq<Seq<char>>)
    requires
        conditions.len() > 0,
        first_too_long(conditions) is None,
    ensures
        first_too_long(conditions.drop_last()) is None,
        fits(bracketed(conditions.last())),
    decreases conditions.len(),
{
    if conditions.len() > 1 {
        prefix_fits(conditions.drop_first());
        assert(conditions.drop_first().drop_last() =~= conditions.drop_last().drop_first());
        assert(conditions.drop_first().last() == conditions.last());
    }
}

proof fn too_long_at(conditions: Seq<Seq<char>>, i: int)
    requires
        0 <= i < conditions.len(),
        !fits(bracketed(conditions[i])),
        forall|j: int| 0 <= j < i ==> fits(bracketed(#[trigger] conditions[j])),
    ensures
        first_too_long(conditions) == Some(conditions[i]),
    decreases i,
{
    if i > 0 {
        assert(fits(bracketed(conditions[0])));
        let rest = conditions.drop_first();
        assert(rest[i - 1] == conditions[i]);
        assert forall|j: int| 0 <= j < i - 1 implies fits(bracketed(#[trigger] rest[j])) by {
            assert(rest[j] == conditions[j + 1]);
        }
        too_long_at(rest, i - 1);
    }
}

proof fn none_too_long(conditions: Seq<Seq<char>>)
    requires
        forall|j: int|
            0 <= j < conditions.len() ==> fits(bracketed(#[trigger] conditions[j])),
    ensures
        first_too_long(conditions) is None,
    decreases conditions.len(),
{
    if conditions.len() > 0 {
        assert(fits(bracketed(conditions[0])));
        let rest = conditions.drop_first();
        assert forall|j: int| 0 <= j < rest.len() implies fits(bracketed(#[trigger] rest[j])) by {
            assert(rest[j] == conditions[j + 1]);
        }
        none_too_long(rest);
    }
}

fn copied(items: &Vec<String>) -> (r: Vec<String>)
    ensures
        views(r@) == views(items@),
{
    let mut r: Vec<String> = Vec::new();
    let mut i: usize = 0;
    while i < items.len()
        invariant
            i <= items.len(),
            views(r@) == views(items@).take(i as int),
        decreases items.len() - i,
    {
        let ghost before = views(r@);
        r.push(items[i].clone());
        assert(views(r@) =~= before.push(items@[i as int]@));
        assert(views(r@) =~= views(items@).take(i + 1));
        i += 1;
    }
    assert(views(r@) =~= views(items@));
    r
}

/// The expressions that select the partitions satisfying any of the conditions.
pub fn partition_expressions(where_conditions: &Vec<String>) -> (r: Result<Vec<String>, String>)
    ensures
        match (r, expressions(views(where_conditions@))) {
            (Ok(e), Ok(f)) => views(e@) == f,
            (Err(e), Err(f)) => e@ == f,
            _ => false,
        },
{
    let ghost all = views(where_conditions@);
    let mut done: Vec<String> = Vec::new();
    let mut current: Vec<String> = Vec::new();
    let ghost mut closed: Seq<Seq<Seq<char>>> = Seq::empty();
    let mut i: usize = 0;
    proof {
        assert(all.take(0) =~= Seq::empty());
        assert(views(done@) =~= closed.map_values(|g: Seq<Seq<char>>| any_of(g)));
        assert(views(current@) =~= Seq::empty());
    }
    while i < where_conditions.len()
        invariant
            i <= where_conditions.len(),
            all == views(where_conditions@),
            forall|j: int| 0 <= j < i ==> fits(bracketed(#[trigger] all[j])),
            views(done@) == closed.map_values(|g: Seq<Seq<char>>| any_of(g)),
            current.len() > 0 ==> groups(all.take(i as int)) == closed.push(views(current@)),
            current.len() == 0 ==> groups(all.take(i as int)) == closed && closed.len() == 0,
        decreases where_conditions.len() - i,
    {
        let condition = where_conditions[i].as_str();
        let ghost next = all.take(i + 1);
        assert(next.drop_last() =~= all.take(i as int));
        assert(next.last() == condition@);
        let b = "(".to_owned().concat(condition).concat(")");
        if byte_len(b.as_str()) > GET_PARTITIONS_API_EXPRESSION_MAX_LENGTH {
            proof {
                too_long_at(all, i as int);
            }
            let limit = decimal_of(GET_PARTITIONS_API_EXPRESSION_MAX_LENGTH as i128);
            return Err(
                "Partition condition exceeds the Glue API expression limit of ".to_owned().concat(
                    limit.as_str(),
                ).concat(" characters: '").concat(head_of(b.as_str(), 100).as_str()).concat(
                    "...'",
                ),
            );
        }
        let mut longer = copied(&current);
        longer.push(b.clone());
        assert(views(longer@) =~= views(current@).push(b@));
        if current.len() > 0 && byte_len(joined(&longer, " or ").as_str())
            > GET_PARTITIONS_API_EXPRESSION_MAX_LENGTH {
            let ghost group = views(current@);
            let expression = joined(&current, " or ");
            let ghost before = views(done@);
            done.push(expression);
            proof {
                assert(views(done@) =~= before.push(any_of(group)));
                let grown = closed.push(group);
                assert(views(done@) =~= grown.map_values(|g: Seq<Seq<char>>| any_of(g)));
                closed = grown;
            }
            current = Vec::new();
            current.push(b);
            assert(views(current@) =~= seq![b@]);
            assert(groups(next) =~= closed.push(views(current@)));
        } else {
            assert(current.len() > 0 ==> groups(next) =~= closed.push(views(longer@)));
            assert(current.len() == 0 ==> views(longer@) =~= seq![b@]);
            assert(current.len() == 0 ==> groups(next) =~= closed.push(views(longer@)));
            current = longer;
        }
        i += 1;
    }
    proof {
        none_too_long(all);
        assert(all.take(i as int) =~= all);
    }
    if current.len() > 0 {
        let ghost before = views(done@);
        let expression = joined(&current, " or ");
        done.push(expression);
        assert(views(done@) =~= before.push(any_of(views(current@))));
        assert(views(done@) =~= groups(all).map_values(|g: Seq<Seq<char>>| any_of(g)));
    }
    Ok(done)
}

// ---------------------------------------------------------------------------
// The operation
// ---------------------------------------------------------------------------

/// The partitions that the expressions from `i` on select, added to those found before.
pub open spec fn selected(
    scope: FieldsView,
    table: Seq<char>,
    expressions: Seq<Seq<char>>,
    i: int,
    found: Seq<JsonView>,
    replies: Seq<ReplyView>,
    at: int,
) -> ProgressView<Seq<JsonView>>
    decreases expressions.len() - i,
{
    if i < 0 || i >= expressions.len() {
        ProgressView::Got(found, at)
    } else {
        match partitions(scope, table, Some(expressions[i]), true, replies, at) {
            ProgressView::Ask(r) => ProgressView::Ask(r),
            ProgressView::Fail(e, n) => ProgressView::Fail(e, n),
            ProgressView::Got(more, n) => selected(
                scope,
                table,
                expressions,
                i + 1,
                found + more,
                replies,
                n,
            ),
        }
    }
}

/// The locations that partitions name.
pub open spec fn locations(found: Seq<JsonView>) -> Seq<Seq<char>>
    decreases found.len(),
{
    if found.len() == 0 {
        Seq::empty()
    } else {
        let rest = locations(found.drop_last());
        match location_of(found.last()) {
            Some(location) => rest.push(location),
            None => rest,
        }
    }
}

/// The end of the chunk that starts at an index.
pub open spec fn chunk_end(len: int, from: int) -> int {
    if len - from <= PARTITION_PROCESSING_CHUNK_SIZE {
        len
    } else {
        from + PARTITION_PROCESSING_CHUNK_SIZE
    }
}

pub open spec fn not_deleted(count: int, relation: RelationParts) -> Seq<char> {
    "Failed to delete "@ + decimal(count) + " partition(s) from Glue table '"@ + relation.schema@
        + "."@ + relation.identifier@ + "'"@
}

/// Deleting partitions from an index on, chunk by chunk: first the data of a chunk, then
/// its entries in Glue. What cannot be deleted ends it.
pub open spec fn cleaned(
    scope: FieldsView,
    relation: RelationParts,
    found: Seq<JsonView>,
    from: int,
    replies: Seq<ReplyView>,
    at: int,
) -> ProgressView<()>
    decreases found.len() - from,
{
    if from < 0 || from >= found.len() {
        ProgressView::Got((), at)
    } else {
        let end = chunk_end(found.len() as int, from);
        let chunk = found.subrange(from, end);
        match deleted_paths(locations(chunk), replies, at) {
            ProgressView::Ask(r) => ProgressView::Ask(r),
            ProgressView::Fail(e, n) => ProgressView::Fail(e, n),
            ProgressView::Got(_, n) => match deleted_partitions(
                scope,
                relation.identifier@,
                chunk,
                replies,
                n,
            ) {
                ProgressView::Ask(r) => ProgressView::Ask(r),
                ProgressView::Fail(e, m) => ProgressView::Fail(e, m),
                ProgressView::Got(errors, m) => if errors.len() > 0 {
                    failed(
                        OpsErrorKind::UnexpectedResult,
                        not_deleted(errors.len() as int, relation),
                        m,
                    )
                } else {
                    cleaned(scope, relation, found, end, replies, m)
                },
            },
        }
    }
}

/// Deleting the data and the partitions of a table that satisfy any of the conditions.
pub open spec fn cleaned_up(
    relation: RelationParts,
    conditions: Seq<Seq<char>>,
    replies: Seq<ReplyView>,
    at: int,
) -> ProgressView<()> {
    match expressions(conditions) {
        Err(e) => failed(OpsErrorKind::Configuration, e, at),
        Ok(selecting) => then_do(
            catalog_id(opt(relation.database), replies, at),
            |catalog: Option<Seq<char>>, n: int|
                {
                    let s = scope(catalog, relation.schema@);
                    then_do(
                        selected(
                            s,
                            relation.identifier@,
                            selecting,
                            0,
                            Seq::empty(),
                            replies,
                            n,
                        ),
                        |found: Seq<JsonView>, m: int| cleaned(s, relation, found, 0, replies, m),
                    )
                },
        ),
    }
}

/// The locations that partitions name.
pub fn locations_at(found: &Vec<Json>) -> (r: Vec<String>)
    ensures
        views(r@) == locations(items_view(found@)),
{
    let ghost all = items_view(found@);
    let mut r: Vec<String> = Vec::new();
    let mut i: usize = 0;
    assert(views(r@) =~= locations(all.take(0)));
    while i < found.len()
        invariant
            i <= found.len(),
            all == items_view(found@),
            views(r@) == locations(all.take(i as int)),
        decreases found.len() - i,
    {
        assert(all.take(i + 1).drop_last() =~= all.take(i as int));
        assert(all.take(i + 1).last() == found@[i as int]@);
        if let Some(location) = location_at(&found[i]) {
            let ghost before = views(r@);
            r.push(location);
            assert(views(r@) =~= before.push(location@));
        }
        i += 1;
    }
    assert(all.take(i as int) =~= all);
    r
}

/// Copies of the items from one index up to another.
pub fn chunk_of(found: &Vec<Json>, from: usize, end: usize) -> (r: Vec<Json>)
    requires
        from <= end <= found.len(),
    ensures
        items_view(r@) == items_view(found@).subrange(from as int, end as int),
{
    let mut r: Vec<Json> = Vec::new();
    let mut i: usize = from;
    while i < end
        invariant
            from <= i <= end <= found.len(),
            r.len() == i - from,
            forall|j: int| 0 <= j < r.len() ==> (#[trigger] r@[j])@ == found@[from + j]@,
        decreases end - i,
    {
        r.push(found[i].copy());
        i += 1;
    }
    assert(items_view(r@) =~= items_view(found@).subrange(from as int, end as int));
    r
}

impl AthenaOps {
    /// The partitions that any of the expressions selects.
    pub fn select_partitions(
        scope: &Fields,
        table: &str,
        selecting: &Vec<String>,
        replies: &Vec<Reply>,
        at: usize,
    ) -> (r: Progress<Vec<Json>>)
        requires
            at <= replies.len(),
        ensures
            r@ == selected(
                scope@,
                table@,
                views(selecting@),
                0,
                Seq::empty(),
                replies_view(replies@),
                at as int,
            ),
            within(r, at, replies@),
            r matches Progress::Got(found, _) ==> found.deep_view() == items_view(found@),
    {
        let ghost answers = replies_view(replies@);
        let ghost exprs = views(selecting@);
        let mut found: Vec<Json> = Vec::new();
        let mut n: usize = at;
        let mut i: usize = 0;
        assert(items_view(found@) =~= Seq::empty());
        while i < selecting.len()
            invariant
                i <= selecting.len(),
                at <= n <= replies.len(),
                answers == replies_view(replies@),
                exprs == views(selecting@),
                selected(scope@, table@, exprs, 0, Seq::empty(), answers, at as int) == selected(
                    scope@,
                    table@,
                    exprs,
                    i as int,
                    items_view(found@),
                    answers,
                    n as int,
                ),
            decreases selecting.len() - i,
        {
            match Self::list_partitions(
                scope,
                table,
                Some(selecting[i].as_str()),
                true,
                replies,
                n,
            ) {
                Progress::Got(more, m) => {
                    let ghost before = items_view(found@);
                    let ghost added = items_view(more@);
                    let mut more = more;
                    found.append(&mut more);
                    assert(items_view(found@) =~= before + added);
                    n = m;
                },
                Progress::Ask(r) => {
                    return Progress::Ask(r);
                },
                Progress::Fail(e, m) => {
                    return Progress::Fail(e, m);
                },
            }
            i += 1;
        }
        assert(found.deep_view() =~= items_view(found@));
        Progress::Got(found, n)
    }

    /// Deletes the data and the partitions of a table that satisfy any of the conditions.
    pub fn clean_up_partitions(
        relation: &RelationParts,
        where_conditions: &Vec<String>,
        replies: &Vec<Reply>,
        at: usize,
    ) -> (r: Progress<()>)
        requires
            at <= replies.len(),
        ensures
            r@ == cleaned_up(
                *relation,
                views(where_conditions@),
                replies_view(replies@),
                at as int,
            ),
            within(r, at, replies@),
    {
        let ghost answers = replies_view(replies@);
        let ghost conditions = views(where_conditions@);
        let selecting = match partition_expressions(where_conditions) {
            Ok(selecting) => selecting,
            Err(e) => {
                return fail(OpsErrorKind::Configuration, e, at);
            },
        };
        let (catalog, n) = match Self::catalog_id(opt_as_str(&relation.database), replies, at) {
            Progress::Got(catalog, n) => (catalog, n),
            Progress::Ask(r) => {
                return Progress::Ask(r);
            },
            Progress::Fail(e, n) => {
                return Progress::Fail(e, n);
            },
        };
        let scope = scope_fields(&catalog, relation.schema.as_str());
        let table = relation.identifier.as_str();
        let (found, n) = match Self::select_partitions(&scope, table, &selecting, replies, n) {
            Progress::Got(found, n) => (found, n),
            Progress::Ask(r) => {
                return Progress::Ask(r);
            },
            Progress::Fail(e, n) => {
                return Progress::Fail(e, n);
            },
        };
        let ghost all = items_view(found@);
        let mut n: usize = n;
        let mut from: usize = 0;
        assert(all.len() == found.len());
        while from < found.len()
            invariant
                from <= found.len(),
                at <= n <= replies.len(),
                answers == replies_view(replies@),
                all == items_view(found@),
                all.len() == found.len(),
                table@ == relation.identifier@,
                cleaned_up(*relation, conditions, answers, at as int) == cleaned(
                    scope@,
                    *relation,
                    all,
                    from as int,
                    answers,
                    n as int,
                ),
                conditions == views(where_conditions@),
            decreases found.len() - from,
        {
            let end: usize = if found.len() - from <= PARTITION_PROCESSING_CHUNK_SIZE {
                found.len()
            } else {
                from + PARTITION_PROCESSING_CHUNK_SIZE
            };
            let chunk = chunk_of(&found, from, end);
            match Self::bulk_delete_from_s3(&locations_at(&chunk), replies, n) {
                Progress::Got(_, m) => {
                    n = m;
                },
                Progress::Ask(r) => {
                    return Progress::Ask(r);
                },
                Progress::Fail(e, m) => {
                    return Progress::Fail(e, m);
                },
            }
            match Self::batch_delete_partitions(&scope, table, &chunk, replies, n) {
                Progress::Got(errors, m) => {
                    assert(items_view(errors@).len() == errors.len());
                    if errors.len() > 0 {
                        let message = "Failed to delete ".to_owned().concat(
                            decimal_of(errors.len() as i128).as_str(),
                        ).concat(" partition(s) from Glue table '").concat(
                            relation.schema.as_str(),
                        ).concat(".").concat(table).concat("'");
                        return fail(OpsErrorKind::UnexpectedResult, message, m);
                    }
                    n = m;
                },
                Progress::Ask(r) => {
                    return Progress::Ask(r);
                },
                Progress::Fail(e, m) => {
                    return Progress::Fail(e, m);
                },
            }
            from = end;
        }
        Progress::Got((), n)
    }
}

} // verus!
