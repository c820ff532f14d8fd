//! Warehouse-key applicability and validation.

use crate::json::{opt_str, Json, JsonView};
use crate::text::{same, views};
use crate::wap::nodes::NodeType;
use vstd::prelude::*;

verus! {

/// Status of a warehouse config key for a resource type.
#[derive(Debug, Clone, Copy, PartialEq, Eq, Structural)]
pub enum KeyStatus {
    /// Applied without a warning.
    Valid,
    /// Applied with a deprecation warning.
    Stale,
    /// The shared resolved config accepts this key, but `dbt_project.yml` does not.
    ResolvedOnly,
    /// Warned and ignored.
    Invalid,
    /// Not a warehouse key; use normal unknown-key handling.
    Unknown,
}

#[derive(Debug, Clone, Copy, PartialEq, Eq, Structural)]
pub enum WarningEmission {
    Emit,
    Suppress,
}

// ---------------------------------------------------------------------------
// The status of a key
// ---------------------------------------------------------------------------

/// What holds of a key for one resource type.
#[derive(Debug)]
pub struct KeyRule {
    pub resource: NodeType,
    pub key: String,
    pub status: KeyStatus,
}

/// The warehouse keys, and what is ruled of them. Resource types of which nothing is ruled
/// have a key in the resolved config alone.
#[derive(Debug)]
pub struct WarehouseScope {
    pub keys: Vec<String>,
    pub rules: Vec<KeyRule>,
}

pub open spec fn rule_from(
    rules: Seq<KeyRule>,
    resource: NodeType,
    key: Seq<char>,
    i: int,
) -> Option<KeyStatus>
    decreases rules.len() - i,
{
    if i < 0 || i >= rules.len() {
        None
    } else if rules[i].resource == resource && rules[i].key@ == key {
        Some(rules[i].status)
    } else {
        rule_from(rules, resource, key, i + 1)
    }
}

pub open spec fn status(scope: WarehouseScope, resource: NodeType, key: Seq<char>) -> KeyStatus {
    if !views(scope.keys@).contains(key) {
        KeyStatus::Unknown
    } else {
        match rule_from(scope.rules@, resource, key, 0) {
            Some(s) => s,
            None => KeyStatus::ResolvedOnly,
        }
    }
}

/// No rule calls a key unknown.
pub open spec fn rules_are_known(scope: WarehouseScope) -> bool {
    forall|i: int|
        0 <= i < scope.rules@.len() ==> (#[trigger] scope.rules@[i]).status != KeyStatus::Unknown
}

proof fn rule_is_known(scope: WarehouseScope, resource: NodeType, key: Seq<char>, i: int)
    requires
        0 <= i,
        rules_are_known(scope),
    ensures
        rule_from(scope.rules@, resource, key, i) != Some(KeyStatus::Unknown),
    decreases scope.rules@.len() - i,
{
    if i < scope.rules@.len() {
        rule_is_known(scope, resource, key, i + 1);
    }
}

/// A warehouse key is unknown to no resource type, and every other key is unknown to all.
pub proof fn only_other_keys_are_unknown(
    scope: WarehouseScope,
    resource: NodeType,
    key: Seq<char>,
)
    requires
        rules_are_known(scope),
    ensures
        status(scope, resource, key) == KeyStatus::Unknown <==> !views(scope.keys@).contains(key),
{
    rule_is_known(scope, resource, key, 0);
}

/// The status of a key where the resolved config is written.
pub open spec fn on_resolved_surface(s: KeyStatus) -> KeyStatus {
    if s == KeyStatus::ResolvedOnly {
        KeyStatus::Stale
    } else {
        s
    }
}

/// The status of a key where the project's config is written.
pub open spec fn on_project_surface(s: KeyStatus) -> KeyStatus {
    if s == KeyStatus::ResolvedOnly {
        KeyStatus::Invalid
    } else {
        s
    }
}

impl WarehouseScope {
    pub fn is_key(&self, key: &str) -> (r: bool)
        ensures
            r == views(self.keys@).contains(key@),
    {
        let mut i: usize = 0;
        while i < self.keys.len()
            invariant
                i <= self.keys.len(),
                forall|k: int| 0 <= k < i ==> (#[trigger] views(self.keys@)[k]) != key@,
            decreases self.keys.len() - i,
        {
            assert(views(self.keys@)[i as int] == self.keys@[i as int]@);
            if same(self.keys[i].as_str(), key) {
                return true;
            }
            i += 1;
        }
        assert(forall|k: int|
            0 <= k < views(self.keys@).len() ==> (#[trigger] views(self.keys@)[k]) != key@);
        false
    }

    pub fn key_status(&self, resource: NodeType, key: &str) -> (r: KeyStatus)
        ensures
            r == status(*self, resource, key@),
    {
        if !self.is_key(key) {
            return KeyStatus::Unknown;
        }
        let mut i: usize = 0;
        while i < self.rules.len()
            invariant
                i <= self.rules.len(),
                views(self.keys@).contains(key@),
                rule_from(self.rules@, resource, key@, 0) == rule_from(
                    self.rules@,
                    resource,
                    key@,
                    i as int,
                ),
            decreases self.rules.len() - i,
        {
            if self.rules[i].resource == resource && same(self.rules[i].key.as_str(), key) {
                return self.rules[i].status;
            }
            i += 1;
        }
        KeyStatus::ResolvedOnly
    }
}

pub fn resolved_surface_key_status(
    scope: &WarehouseScope,
    resource: NodeType,
    key: &str,
) -> (r: KeyStatus)
    ensures
        r == on_resolved_surface(status(*scope, resource, key@)),
{
    match scope.key_status(resource, key) {
        KeyStatus::ResolvedOnly => KeyStatus::Stale,
        s => s,
    }
}

pub fn project_surface_key_status(
    scope: &WarehouseScope,
    resource: NodeType,
    key: &str,
) -> (r: KeyStatus)
    ensures
        r == on_project_surface(status(*scope, resource, key@)),
{
    match scope.key_status(resource, key) {
        KeyStatus::ResolvedOnly => KeyStatus::Invalid,
        s => s,
    }
}

// ---------------------------------------------------------------------------
// Keys of a mapping
// ---------------------------------------------------------------------------

/// An entry of a mapping. Its key is text, or something else that is left alone.
#[derive(Debug)]
pub struct MappingEntry {
    pub key: Option<String>,
    pub value: Json,
}

pub struct EntryView {
    pub key: Option<Seq<char>>,
    pub value: JsonView,
}

impl View for MappingEntry {
    type V = EntryView;

    open spec fn view(&self) -> EntryView {
        EntryView { key: crate::json::opt(self.key), value: self.value@ }
    }
}

pub open spec fn entries_view(entries: Seq<MappingEntry>) -> Seq<EntryView> {
    entries.map_values(|e: MappingEntry| e@)
}

/// The entry stays: only keys that are invalid are removed.
pub open spec fn is_kept(entry: EntryView, s: KeyStatus) -> bool {
    entry.key is None || s != KeyStatus::Invalid
}

pub open spec fn is_warned(entry: EntryView, s: KeyStatus) -> bool {
    entry.key is Some && (s == KeyStatus::Stale || s == KeyStatus::ResolvedOnly || s
        == KeyStatus::Invalid)
}

/// The warning of a key that is deprecated or ignored.
pub open spec fn warning(
    key: Seq<char>,
    context: Option<Seq<char>>,
    resource: Seq<char>,
    s: KeyStatus,
) -> Seq<char> {
    "Config `"@ + key + "`"@ + (match context {
        Some(c) => " (under `"@ + c + "`)"@,
        None => ""@,
    }) + " for resource type `"@ + resource + "` is "@ + (if s == KeyStatus::Invalid {
        "not a valid config here and is ignored."@
    } else {
        "deprecated and may stop being supported in a future release. It is still applied."@
    })
}

/// The entries that stay, up to a place.
pub open spec fn kept(entries: Seq<EntryView>, statuses: Seq<KeyStatus>, to: int) -> Seq<EntryView>
    decreases to,
{
    if to <= 0 || to > entries.len() {
        Seq::empty()
    } else if is_kept(entries[to - 1], statuses[to - 1]) {
        kept(entries, statuses, to - 1).push(entries[to - 1])
    } else {
        kept(entries, statuses, to - 1)
    }
}

/// The warnings, up to a place, each with the place of its entry.
pub open spec fn warnings(
    entries: Seq<EntryView>,
    statuses: Seq<KeyStatus>,
    context: Option<Seq<char>>,
    resource: Seq<char>,
    to: int,
) -> Seq<(int, Seq<char>)>
    decreases to,
{
    if to <= 0 || to > entries.len() {
        Seq::empty()
    } else {
        let rest = warnings(entries, statuses, context, resource, to - 1);
        if is_warned(entries[to - 1], statuses[to - 1]) {
            rest.push(
                (
                    to - 1,
                    warning(entries[to - 1].key->0, context, resource, statuses[to - 1]),
                ),
            )
        } else {
            rest
        }
    }
}

/// A warning, with the place of the entry that it is about.
#[derive(Debug)]
pub struct KeyWarning {
    pub entry: usize,
    pub message: String,
}

pub open spec fn warnings_view(w: Seq<KeyWarning>) -> Seq<(int, Seq<char>)> {
    w.map_values(|k: KeyWarning| (k.entry as int, k.message@))
}

/// The statuses are those of the keys. An entry without text for a key has none to ask for.
pub open spec fn statuses_of<F: Fn(&str) -> KeyStatus>(
    entries: Seq<MappingEntry>,
    status_for: F,
    statuses: Seq<KeyStatus>,
) -> bool {
    statuses.len() == entries.len() && forall|i: int|
        0 <= i < entries.len() && (#[trigger] entries[i]).key is Some ==> exists|k: &str|
            k@ == entries[i].key->0@ && #[trigger] status_for.ensures((k,), statuses[i])
}

fn warning_text(key: &str, context: Option<&str>, resource: &str, invalid: bool) -> (r: String)
    ensures
        r@ == warning(
            key@,
            opt_str(context),
            resource@,
            if invalid {
                KeyStatus::Invalid
            } else {
                KeyStatus::Stale
            },
        ),
{
    let scope = match context {
        Some(c) => " (under `".to_owned().concat(c).concat("`)"),
        None => "".to_owned(),
    };
    let outcome = if invalid {
        "not a valid config here and is ignored."
    } else {
        "deprecated and may stop being supported in a future release. It is still applied."
    };
    "Config `".to_owned().concat(key).concat("`").concat(scope.as_str()).concat(
        " for resource type `",
    ).concat(resource).concat("` is ").concat(outcome)
}

fn asked<F: Fn(&str) -> KeyStatus>(entry: &MappingEntry, status_for: &F) -> (r: KeyStatus)
    requires
        forall|k: &str| status_for.requires((k,)),
    ensures
        entry.key is Some ==> exists|k: &str|
            k@ == entry.key->0@ && #[trigger] status_for.ensures((k,), r),
{
    match &entry.key {
        Some(key) => {
            let name = key.as_str();
            let s = status_for(name);
            assert(name@ == entry.key->0@ && status_for.ensures((name,), s));
            s
        },
        None => KeyStatus::Unknown,
    }
}

/// Warns for deprecated keys and removes invalid keys.
pub fn warn_and_strip_deprecated_warehouse_keys<F: Fn(&str) -> KeyStatus>(
    mapping: &Vec<MappingEntry>,
    context: Option<&str>,
    resource: &str,
    warning_emission: WarningEmission,
    status_for: F,
) -> (r: (Vec<MappingEntry>, Vec<KeyWarning>))
    requires
        forall|k: &str| status_for.requires((k,)),
    ensures
        exists|statuses: Seq<KeyStatus>| #[trigger]
            statuses_of(mapping@, status_for, statuses) && {
                &&& entries_view(r.0@) == kept(
                    entries_view(mapping@),
                    statuses,
                    mapping.len() as int,
                )
                &&& warnings_view(r.1@) == (if warning_emission == WarningEmission::Emit {
                    warnings(
                        entries_view(mapping@),
                        statuses,
                        opt_str(context),
                        resource@,
                        mapping.len() as int,
                    )
                } else {
                    Seq::empty()
                })
            },
{
    let ghost all = entries_view(mapping@);
    let mut statuses: Vec<KeyStatus> = Vec::new();
    let mut i: usize = 0;
    while i < mapping.len()
        invariant
            i <= mapping.len(),
            statuses.len() == i,
            forall|k: &str| status_for.requires((k,)),
            forall|j: int|
                0 <= j < i && (#[trigger] mapping@[j]).key is Some ==> exists|k: &str|
                    k@ == mapping@[j].key->0@ && #[trigger] status_for.ensures(
                        (k,),
                        statuses@[j],
                    ),
        decreases mapping.len() - i,
    {
        let found = asked(&mapping[i], &status_for);
        let ghost prior = statuses@;
        statuses.push(found);
        assert forall|j: int|
            0 <= j < i + 1 && (#[trigger] mapping@[j]).key is Some implies exists|k: &str|
            k@ == mapping@[j].key->0@ && #[trigger] status_for.ensures((k,), statuses@[j]) by {
            if j < i {
                assert(statuses@[j] == prior[j]);
                let k = choose|k: &str|
                    k@ == mapping@[j].key->0@ && #[trigger] status_for.ensures((k,), prior[j]);
                assert(status_for.ensures((k,), statuses@[j]));
            } else {
                let k = choose|k: &str|
                    k@ == mapping@[j].key->0@ && #[trigger] status_for.ensures((k,), found);
                assert(status_for.ensures((k,), statuses@[j]));
            }
        }
        i += 1;
    }
    let emits = warning_emission == WarningEmission::Emit;
    let mut stays: Vec<MappingEntry> = Vec::new();
    let mut said: Vec<KeyWarning> = Vec::new();
    let mut j: usize = 0;
    assert(entries_view(stays@) =~= kept(all, statuses@, 0));
    assert(warnings_view(said@) =~= Seq::empty());
    while j < mapping.len()
        invariant
            j <= mapping.len(),
            statuses.len() == mapping.len(),
            all == entries_view(mapping@),
            emits == (warning_emission == WarningEmission::Emit),
            entries_view(stays@) == kept(all, statuses@, j as int),
            warnings_view(said@) == (if emits {
                warnings(all, statuses@, opt_str(context), resource@, j as int)
            } else {
                Seq::empty()
            }),
        decreases mapping.len() - j,
    {
        let entry = &mapping[j];
        let s = statuses[j];
        assert(all[j as int] == entry@);
        if let Some(key) = &entry.key {
            let invalid = s == KeyStatus::Invalid;
            if emits && (invalid || s == KeyStatus::Stale || s == KeyStatus::ResolvedOnly) {
                let ghost prior = warnings_view(said@);
                let message = warning_text(key.as_str(), context, resource, invalid);
                let ghost text = message@;
                said.push(KeyWarning { entry: j, message });
                assert(warnings_view(said@) =~= prior.push((j as int, text)));
            }
        }
        if entry.key.is_none() || s != KeyStatus::Invalid {
            let ghost prior = entries_view(stays@);
            let copied = MappingEntry {
                key: match &entry.key {
                    Some(k) => Some(k.clone()),
                    None => None,
                },
                value: entry.value.copy(),
            };
            assert(copied@ == entry@);
            stays.push(copied);
            assert(entries_view(stays@) =~= prior.push(entry@));
        }
        j += 1;
    }
    assert(statuses_of(mapping@, status_for, statuses@));
    (stays, said)
}

/// A key is removed exactly where it is invalid: whatever else its entry holds stays as it
/// is.
pub proof fn only_invalid_keys_are_removed(
    entries: Seq<EntryView>,
    statuses: Seq<KeyStatus>,
    i: int,
)
    requires
        statuses.len() == entries.len(),
        0 <= i < entries.len(),
    ensures
        is_kept(entries[i], statuses[i]) ==> kept(
            entries,
            statuses,
            entries.len() as int,
        ).contains(entries[i]),
        forall|e: EntryView| #[trigger]
            kept(entries, statuses, entries.len() as int).contains(e) ==> exists|j: int|
                0 <= j < entries.len() && #[trigger] entries[j] == e && is_kept(e, statuses[j]),
{
    kept_holds(entries, statuses, entries.len() as int);
}

proof fn kept_holds(entries: Seq<EntryView>, statuses: Seq<KeyStatus>, to: int)
    requires
        statuses.len() == entries.len(),
        0 <= to <= entries.len(),
    ensures
        forall|i: int|
            0 <= i < to && is_kept(#[trigger] entries[i], statuses[i]) ==> kept(
                entries,
                statuses,
                to,
            ).contains(entries[i]),
        forall|e: EntryView| #[trigger]
            kept(entries, statuses, to).contains(e) ==> exists|j: int|
                0 <= j < to && #[trigger] entries[j] == e && is_kept(e, statuses[j]),
    decreases to,
{
    if to > 0 {
        kept_holds(entries, statuses, to - 1);
        let before = kept(entries, statuses, to - 1);
        let all = kept(entries, statuses, to);
        assert forall|i: int|
            0 <= i < to && is_kept(#[trigger] entries[i], statuses[i]) implies all.contains(
            entries[i],
        ) by {
            if i < to - 1 {
                let k = choose|k: int| 0 <= k < before.len() && before[k] == entries[i];
                assert(all[k] == entries[i]);
            } else {
                assert(all[before.len() as int] == entries[i]);
            }
        }
        assert forall|e: EntryView| #[trigger] all.contains(e) implies exists|j: int|
            0 <= j < to && #[trigger] entries[j] == e && is_kept(e, statuses[j]) by {
            let k = choose|k: int| 0 <= k < all.len() && all[k] == e;
            if k < before.len() {
                assert(before[k] == e);
                assert(before.contains(e));
            } else {
                assert(entries[to - 1] == e);
            }
        }
    }
}

/// What a project's config accepts, the resolved config accepts too.
pub proof fn project_keys_are_resolved_keys(s: KeyStatus)
    ensures
        on_project_surface(s) != KeyStatus::Invalid ==> on_resolved_surface(s)
            != KeyStatus::Invalid,
{
}

} // verus!
