//! Three-way merge of synchronisation snapshots, and the decisions that
//! resolve a conflict.
use vstd::prelude::*;

use crate::recurrence::str_equals;
use crate::sync::{
    field_map, fields_sorted, find_field, lemma_field_map_at, set_field, SyncEntity,
    SyncEntityKind, SyncField,
};
use crate::text::{
    lemma_text_lt_asymmetric, lemma_text_lt_irreflexive, lemma_text_lt_total,
    lemma_text_lt_transitive, text_less, text_lt,
};

verus! {

/// The pseudo field name of a conflict about a whole entity.
pub const ENTITY_FIELD: &'static str = "__entity__";

/// A value in a conflict: the JSON text of one field, or the fields of a
/// whole entity.
#[derive(Debug)]
pub enum SyncValue {
    Json(String),
    Entity(Vec<SyncField>),
}

pub enum ValueView {
    Json(Seq<char>),
    Entity(Seq<(Seq<char>, Seq<char>)>),
}

pub open spec fn fields_view(fields: Seq<SyncField>) -> Seq<(Seq<char>, Seq<char>)> {
    fields.map_values(|f: SyncField| (f.name@, f.value@))
}

impl View for SyncValue {
    type V = ValueView;

    open spec fn view(&self) -> ValueView {
        match self {
            SyncValue::Json(text) => ValueView::Json(text@),
            SyncValue::Entity(fields) => ValueView::Entity(fields_view(fields@)),
        }
    }
}

pub open spec fn option_value_view(v: Option<SyncValue>) -> Option<ValueView> {
    match v {
        Some(v) => Some(v@),
        None => None,
    }
}

/// A field (or whole entity) changed differently on both sides.
#[derive(Debug)]
pub struct SyncFieldConflict {
    pub entity_id: u128,
    pub entity_kind: SyncEntityKind,
    pub field_name: String,
    pub local_value: Option<SyncValue>,
    pub remote_value: Option<SyncValue>,
    pub base_value: Option<SyncValue>,
}

pub struct ConflictView {
    pub entity_id: u128,
    pub entity_kind: SyncEntityKind,
    pub field_name: Seq<char>,
    pub local_value: Option<ValueView>,
    pub remote_value: Option<ValueView>,
    pub base_value: Option<ValueView>,
}

impl View for SyncFieldConflict {
    type V = ConflictView;

    open spec fn view(&self) -> ConflictView {
        ConflictView {
            entity_id: self.entity_id,
            entity_kind: self.entity_kind,
            field_name: self.field_name@,
            local_value: option_value_view(self.local_value),
            remote_value: option_value_view(self.remote_value),
            base_value: option_value_view(self.base_value),
        }
    }
}

#[derive(Clone, Copy, Debug, Default, PartialEq, Eq)]
pub struct MergeSummary {
    pub local_only: u32,
    pub remote_only: u32,
    pub merged: u32,
    pub conflicts: u32,
}

#[derive(Debug)]
pub struct MergePlan {
    pub entities: Vec<SyncEntity>,
    pub conflicts: Vec<SyncFieldConflict>,
    pub summary: MergeSummary,
}

/// How a conflict is resolved.
#[derive(Clone, Copy, Debug, PartialEq, Eq, Structural)]
pub enum MergeDecision {
    KeepLocal,
    AcceptRemote,
    CreateConflictCopy,
}

// ---------------------------------------------------------------------------
// Field names

/// Fields that each side derives for itself and that a merge never combines.
pub open spec fn is_derived_name(name: Seq<char>) -> bool {
    ||| name == "id"@
    ||| name == "created_at"@
    ||| name == "updated_at"@
    ||| name == "revision"@
    ||| name == "reminder_sent_at"@
}

pub fn is_derived_field(field_name: &str) -> (r: bool)
    ensures
        r == is_derived_name(field_name@),
{
    str_equals(field_name, "id") || str_equals(field_name, "created_at") || str_equals(
        field_name,
        "updated_at",
    ) || str_equals(field_name, "revision") || str_equals(field_name, "reminder_sent_at")
}

pub open spec fn names_sorted(names: Seq<String>) -> bool {
    forall|i: int, j: int| 0 <= i < j < names.len() ==> text_lt(names[i]@, names[j]@)
}

pub open spec fn has_name(names: Seq<String>, name: Seq<char>) -> bool {
    exists|i: int| 0 <= i < names.len() && names[i]@ == name
}

/// Adds a name to a strictly sorted list of names, once.
pub(crate) fn insert_name(names: &mut Vec<String>, name: &str)
    requires
        names_sorted(old(names)@),
    ensures
        names_sorted(final(names)@),
        forall|n: Seq<char>| has_name(final(names)@, n) <==> (has_name(old(names)@, n) || n == name@),
{
    let ghost before = names@;
    let n = names.len();
    let mut p: usize = 0;
    while p < n && text_less(names[p].as_str(), name)
        invariant
            n == before.len(),
            names@ == before,
            p <= n,
            forall|k: int| 0 <= k < p ==> text_lt(before[k]@, name@),
        decreases n - p,
    {
        p = p + 1;
    }
    if p < n && str_equals(names[p].as_str(), name) {
        return;
    }
    proof {
        if p < n {
            lemma_text_lt_total(name@, before[p as int]@);
        }
        assert forall|k: int| p <= k < n implies text_lt(name@, before[k]@) by {
            if k > p {
                lemma_text_lt_transitive(name@, before[p as int]@, before[k]@);
            }
        }
    }
    names.insert(p, name.to_owned());
    proof {
        let after = names@;
        assert forall|i: int, j: int| 0 <= i < j < after.len() implies text_lt(after[i]@, after[j]@) by {
            if j < p {
            } else if j == p {
            } else if i < p {
                assert(after[j] == before[j - 1]);
                lemma_text_lt_transitive(before[i]@, name@, before[j - 1]@);
            } else if i == p {
                assert(after[j] == before[j - 1]);
            } else {
                assert(after[i] == before[i - 1]);
                assert(after[j] == before[j - 1]);
            }
        }
        assert forall|m: Seq<char>| has_name(after, m) <==> (has_name(before, m) || m == name@) by {
            if has_name(after, m) {
                let i = choose|i: int| 0 <= i < after.len() && after[i]@ == m;
                if i < p {
                    assert(after[i] == before[i]);
                } else if i > p {
                    assert(after[i] == before[i - 1]);
                }
            }
            if has_name(before, m) {
                let i = choose|i: int| 0 <= i < before.len() && before[i]@ == m;
                if i < p {
                    assert(after[i] == before[i]);
                } else {
                    assert(after[i + 1] == before[i]);
                }
            }
            if m == name@ {
                assert(after[p as int]@ == name@);
            }
        }
    }
}

pub open spec fn in_prefix(fields: Seq<SyncField>, i: int, n: Seq<char>) -> bool {
    exists|k: int| 0 <= k < i && fields[k].name@ == n
}

/// The field names of one side, added to a sorted list of names.
fn add_field_names(names: &mut Vec<String>, fields: &Vec<SyncField>)
    requires
        names_sorted(old(names)@),
    ensures
        names_sorted(final(names)@),
        forall|n: Seq<char>| has_name(final(names)@, n) <==> (has_name(old(names)@, n)
            || field_map(fields@).contains_key(n)),
{
    let ghost before = names@;
    let mut i: usize = 0;
    while i < fields.len()
        invariant
            i <= fields@.len(),
            names_sorted(names@),
            forall|n: Seq<char>| #[trigger] has_name(names@, n) <==> (has_name(before, n) || in_prefix(fields@, i as int, n)),
        decreases fields@.len() - i,
    {
        let ghost prior = names@;
        insert_name(names, fields[i].name.as_str());
        proof {
            assert forall|n: Seq<char>| #[trigger] has_name(names@, n) <==> (has_name(before, n) || in_prefix(fields@, i + 1, n)) by {
                if n == fields@[i as int].name@ {
                    assert(0 <= i < i + 1 && fields@[i as int].name@ == n);
                }
                if in_prefix(fields@, i + 1, n) {
                    let k = choose|k: int| 0 <= k < i + 1 && fields@[k].name@ == n;
                    if k < i {
                        assert(in_prefix(fields@, i as int, n));
                        assert(has_name(prior, n));
                    }
                }
                if has_name(prior, n) {
                    if !has_name(before, n) {
                        assert(in_prefix(fields@, i as int, n));
                        let k = choose|k: int| 0 <= k < i && fields@[k].name@ == n;
                        assert(0 <= k < i + 1 && fields@[k].name@ == n);
                    }
                }
            }
        }
        i = i + 1;
    }
    proof {
        assert forall|n: Seq<char>| #[trigger] has_name(names@, n) <==> (has_name(before, n)
            || field_map(fields@).contains_key(n)) by {
            if field_map(fields@).contains_key(n) {
                let k = choose|k: int| 0 <= k < fields@.len() && fields@[k].name@ == n;
                assert(in_prefix(fields@, i as int, n));
            }
        }
    }
}

// ---------------------------------------------------------------------------
// Merging one entity

pub open spec fn value_of(e: SyncEntity, name: Seq<char>) -> Option<Seq<char>> {
    if field_map(e.fields@).contains_key(name) {
        Some(field_map(e.fields@)[name])
    } else {
        None
    }
}

/// A field changed on both sides, to different values.
pub open spec fn is_field_conflict(base: SyncEntity, local: SyncEntity, remote: SyncEntity, name: Seq<char>) -> bool {
    let b = value_of(base, name);
    let l = value_of(local, name);
    let r = value_of(remote, name);
    !is_derived_name(name) && l != b && r != b && l != r
}

/// The value a field takes in the merged entity: the remote value where only
/// the remote side changed it, else the local value.
pub open spec fn merged_value(base: SyncEntity, local: SyncEntity, remote: SyncEntity, name: Seq<char>) -> Option<Seq<char>> {
    let b = value_of(base, name);
    let l = value_of(local, name);
    let r = value_of(remote, name);
    if !is_derived_name(name) && l == b && r != b {
        r
    } else {
        l
    }
}

pub open spec fn in_any_fields(base: SyncEntity, local: SyncEntity, remote: SyncEntity, name: Seq<char>) -> bool {
    field_map(base.fields@).contains_key(name) || field_map(local.fields@).contains_key(name)
        || field_map(remote.fields@).contains_key(name)
}

/// The fields of the merged entity.
pub open spec fn merged_fields(base: SyncEntity, local: SyncEntity, remote: SyncEntity) -> Map<Seq<char>, Seq<char>> {
    Map::new(
        |n: Seq<char>| in_any_fields(base, local, remote, n) && merged_value(base, local, remote, n) is Some,
        |n: Seq<char>| merged_value(base, local, remote, n)->Some_0,
    )
}

pub open spec fn json_view(v: Option<Seq<char>>) -> Option<ValueView> {
    match v {
        Some(t) => Some(ValueView::Json(t)),
        None => None,
    }
}

/// The record of a conflicting field.
pub open spec fn field_conflict_view(base: SyncEntity, local: SyncEntity, remote: SyncEntity, name: Seq<char>) -> ConflictView {
    ConflictView {
        entity_id: local.id,
        entity_kind: local.kind,
        field_name: name,
        local_value: json_view(value_of(local, name)),
        remote_value: json_view(value_of(remote, name)),
        base_value: json_view(value_of(base, name)),
    }
}

pub open spec fn conflicts_sorted_by_name(conflicts: Seq<SyncFieldConflict>) -> bool {
    forall|i: int, j: int|
        0 <= i < j < conflicts.len() ==> text_lt(conflicts[i].field_name@, conflicts[j].field_name@)
}

/// `conflicts` lists, in order of name, exactly the conflicting fields of the three versions.
pub open spec fn entity_conflicts_are(
    conflicts: Seq<SyncFieldConflict>,
    base: SyncEntity,
    local: SyncEntity,
    remote: SyncEntity,
) -> bool {
    &&& conflicts_sorted_by_name(conflicts)
    &&& forall|i: int| #![trigger conflicts[i]] 0 <= i < conflicts.len() ==> {
        let n = conflicts[i].field_name@;
        &&& in_any_fields(base, local, remote, n)
        &&& is_field_conflict(base, local, remote, n)
        &&& conflicts[i]@ == field_conflict_view(base, local, remote, n)
    }
    &&& forall|n: Seq<char>| in_any_fields(base, local, remote, n) && is_field_conflict(base, local, remote, n)
        ==> exists|i: int| 0 <= i < conflicts.len() && conflicts[i].field_name@ == n
}

fn option_text(fields: &Vec<SyncField>, name: &str) -> (r: Option<String>)
    requires
        fields_sorted(fields@),
    ensures
        match r {
            Some(t) => field_map(fields@).contains_key(name@) && field_map(fields@)[name@] == t@,
            None => !field_map(fields@).contains_key(name@),
        },
{
    match find_field(fields, name) {
        Some(i) => Some(fields[i].value.clone()),
        None => None,
    }
}

fn option_text_equal(a: &Option<String>, b: &Option<String>) -> (r: bool)
    ensures
        r == (match (a, b) {
            (Some(x), Some(y)) => x@ == y@,
            (None, None) => true,
            _ => false,
        }),
{
    match (a, b) {
        (Some(x), Some(y)) => str_equals(x.as_str(), y.as_str()),
        (None, None) => true,
        _ => false,
    }
}

pub open spec fn text_view(v: Option<String>) -> Option<Seq<char>> {
    match v {
        Some(t) => Some(t@),
        None => None,
    }
}

fn json_value(v: Option<String>) -> (r: Option<SyncValue>)
    ensures
        option_value_view(r) == json_view(text_view(v)),
{
    match v {
        Some(t) => Some(SyncValue::Json(t)),
        None => None,
    }
}

/// The fields after the names in `done` have been merged and the others are
/// still the local ones.
pub open spec fn partially_merged(base: SyncEntity, local: SyncEntity, remote: SyncEntity, done: Set<Seq<char>>) -> Map<
    Seq<char>,
    Seq<char>,
> {
    Map::new(
        |n: Seq<char>|
            if done.contains(n) {
                merged_value(base, local, remote, n) is Some
            } else {
                field_map(local.fields@).contains_key(n)
            },
        |n: Seq<char>|
            if done.contains(n) {
                merged_value(base, local, remote, n)->Some_0
            } else {
                field_map(local.fields@)[n]
            },
    )
}

/// Merges the field `name` into `merged`, recording a conflict where both
/// sides changed it differently.
fn merge_field(
    base: &SyncEntity,
    local: &SyncEntity,
    remote: &SyncEntity,
    name: &String,
    merged: &mut SyncEntity,
    conflicts: &mut Vec<SyncFieldConflict>,
    Ghost(done): Ghost<Set<Seq<char>>>,
)
    requires
        base.wf(),
        local.wf(),
        remote.wf(),
        old(merged).wf(),
        !done.contains(name@),
        field_map(old(merged).fields@) == partially_merged(*base, *local, *remote, done),
    ensures
        final(merged).wf(),
        final(merged).id == old(merged).id,
        final(merged).kind == old(merged).kind,
        final(merged).deleted == old(merged).deleted,
        field_map(final(merged).fields@) == partially_merged(*base, *local, *remote, done.insert(name@)),
        if is_field_conflict(*base, *local, *remote, name@) {
            final(conflicts)@.len() == old(conflicts)@.len() + 1
                && final(conflicts)@.drop_last() == old(conflicts)@
                && final(conflicts)@.last()@ == field_conflict_view(*base, *local, *remote, name@)
                && final(conflicts)@.last().entity_id == local.id
                && final(conflicts)@.last().entity_kind == local.kind
        } else {
            final(conflicts)@ == old(conflicts)@
        },
{
    let b = option_text(&base.fields, name.as_str());
    let l = option_text(&local.fields, name.as_str());
    let r = option_text(&remote.fields, name.as_str());
    let ghost before = field_map(merged.fields@);
    if !is_derived_field(name.as_str()) {
        let local_changed = !option_text_equal(&l, &b);
        let remote_changed = !option_text_equal(&r, &b);
        if local_changed && remote_changed && !option_text_equal(&l, &r) {
            let conflict = SyncFieldConflict {
                entity_id: local.id,
                entity_kind: local.kind,
                field_name: name.clone(),
                local_value: json_value(l),
                remote_value: json_value(r),
                base_value: json_value(b),
            };
            conflicts.push(conflict);
            proof {
                assert(conflicts@.drop_last() =~= old(conflicts)@);
            }
        } else if !local_changed && remote_changed {
            set_field(&mut merged.fields, name.as_str(), r);
        }
    }
    proof {
        assert(field_map(merged.fields@) =~= partially_merged(*base, *local, *remote, done.insert(name@)));
    }
}

/// Merges the three versions of an entity field by field.
pub fn merge_entity(base: &SyncEntity, local: &SyncEntity, remote: &SyncEntity) -> (r: (
    SyncEntity,
    Vec<SyncFieldConflict>,
))
    requires
        base.wf(),
        local.wf(),
        remote.wf(),
    ensures
        r.0.id == local.id,
        r.0.kind == local.kind,
        r.0.deleted == local.deleted,
        r.0.wf(),
        field_map(r.0.fields@) == merged_fields(*base, *local, *remote),
        entity_conflicts_are(r.1@, *base, *local, *remote),
        forall|i: int| 0 <= i < r.1@.len() ==> r.1@[i].entity_id == local.id && r.1@[i].entity_kind == local.kind,
{
    let mut names: Vec<String> = Vec::new();
    add_field_names(&mut names, &base.fields);
    add_field_names(&mut names, &local.fields);
    add_field_names(&mut names, &remote.fields);
    let ghost all = names@;
    let mut merged = local.clone();
    let mut conflicts: Vec<SyncFieldConflict> = Vec::new();
    let ghost mut done: Set<Seq<char>> = Set::empty();
    proof {
        assert(field_map(merged.fields@) =~= partially_merged(*base, *local, *remote, done));
    }
    let mut i: usize = 0;
    while i < names.len()
        invariant
            names@ == all,
            names_sorted(all),
            forall|n: Seq<char>| has_name(all, n) <==> in_any_fields(*base, *local, *remote, n),
            base.wf(),
            local.wf(),
            remote.wf(),
            i <= all.len(),
            merged.id == local.id,
            merged.kind == local.kind,
            merged.deleted == local.deleted,
            merged.wf(),
            field_map(merged.fields@) == partially_merged(*base, *local, *remote, done),
            forall|n: Seq<char>| #[trigger] done.contains(n) ==> has_name(all, n),
            forall|n: Seq<char>| #[trigger] done.contains(n) && i < all.len() ==> text_lt(n, all[i as int]@),
            forall|m: int| 0 <= m < i ==> done.contains(#[trigger] all[m]@),
            conflicts_sorted_by_name(conflicts@),
            forall|k: int| #![trigger conflicts@[k]] 0 <= k < conflicts@.len() ==> {
                let n = conflicts@[k].field_name@;
                &&& done.contains(n)
                &&& is_field_conflict(*base, *local, *remote, n)
                &&& conflicts@[k]@ == field_conflict_view(*base, *local, *remote, n)
                &&& conflicts@[k].entity_id == local.id
                &&& conflicts@[k].entity_kind == local.kind
            },
            forall|n: Seq<char>| #[trigger] done.contains(n) && is_field_conflict(*base, *local, *remote, n)
                ==> exists|k: int| 0 <= k < conflicts@.len() && conflicts@[k].field_name@ == n,
        decreases all.len() - i,
    {
        let ghost name = all[i as int]@;
        let ghost before = conflicts@;
        proof {
            lemma_text_lt_irreflexive(name);
        }
        merge_field(base, local, remote, &names[i], &mut merged, &mut conflicts, Ghost(done));
        proof {
            let new_done = done.insert(name);
            if i + 1 < all.len() {
                assert forall|n: Seq<char>| #[trigger] new_done.contains(n) implies text_lt(n, all[i + 1]@) by {
                    if n != name {
                        lemma_text_lt_transitive(n, name, all[i + 1]@);
                    }
                }
            }
            if is_field_conflict(*base, *local, *remote, name) {
                assert forall|a: int, c: int| 0 <= a < c < conflicts@.len() implies text_lt(
                    conflicts@[a].field_name@,
                    conflicts@[c].field_name@,
                ) by {
                    if c == conflicts@.len() - 1 {
                        assert(conflicts@[a] == before[a]);
                    } else {
                        assert(conflicts@[a] == before[a]);
                        assert(conflicts@[c] == before[c]);
                    }
                }
                assert forall|k: int| #![trigger conflicts@[k]] 0 <= k < conflicts@.len() implies {
                    let n = conflicts@[k].field_name@;
                    &&& new_done.contains(n)
                    &&& is_field_conflict(*base, *local, *remote, n)
                    &&& conflicts@[k]@ == field_conflict_view(*base, *local, *remote, n)
                    &&& conflicts@[k].entity_id == local.id
                    &&& conflicts@[k].entity_kind == local.kind
                } by {
                    if k < before.len() {
                        assert(conflicts@[k] == before[k]);
                    }
                }
                assert forall|n: Seq<char>| #[trigger] new_done.contains(n) && is_field_conflict(
                    *base,
                    *local,
                    *remote,
                    n,
                ) implies exists|k: int| 0 <= k < conflicts@.len() && conflicts@[k].field_name@ == n by {
                    if n == name {
                        assert(conflicts@[conflicts@.len() - 1].field_name@ == n);
                    } else {
                        let k = choose|k: int| 0 <= k < before.len() && before[k].field_name@ == n;
                        assert(conflicts@[k] == before[k]);
                    }
                }
            }
            done = new_done;
        }
        i = i + 1;
    }
    proof {
        assert forall|n: Seq<char>| in_any_fields(*base, *local, *remote, n) implies #[trigger] done.contains(n) by {
            assert(has_name(all, n));
            let m = choose|m: int| 0 <= m < all.len() && all[m]@ == n;
            assert(done.contains(all[m]@));
        }
        assert forall|n: Seq<char>| in_any_fields(*base, *local, *remote, n) && is_field_conflict(
            *base,
            *local,
            *remote,
            n,
        ) implies exists|k: int| 0 <= k < conflicts@.len() && conflicts@[k].field_name@ == n by {
            assert(done.contains(n));
        }
        assert forall|k: int| #![trigger conflicts@[k]] 0 <= k < conflicts@.len() implies in_any_fields(
            *base,
            *local,
            *remote,
            conflicts@[k].field_name@,
        ) by {
            assert(done.contains(conflicts@[k].field_name@));
        }
        assert(field_map(merged.fields@) =~= merged_fields(*base, *local, *remote));
    }
    (merged, conflicts)
}

// ---------------------------------------------------------------------------
// Merging snapshots

pub open spec fn kind_code(kind: SyncEntityKind) -> u8 {
    match kind {
        SyncEntityKind::Project => 0u8,
        SyncEntityKind::Tag => 1u8,
        SyncEntityKind::Task => 2u8,
    }
}

/// The key of an entity: its kind, then its identifier.
pub open spec fn entity_key(e: SyncEntity) -> (u8, u128) {
    (kind_code(e.kind), e.id)
}

pub open spec fn key_lt(a: (u8, u128), b: (u8, u128)) -> bool {
    a.0 < b.0 || (a.0 == b.0 && a.1 < b.1)
}

fn key_of(e: &SyncEntity) -> (r: (u8, u128))
    ensures
        r == entity_key(*e),
{
    let code = match e.kind {
        SyncEntityKind::Project => 0u8,
        SyncEntityKind::Tag => 1u8,
        SyncEntityKind::Task => 2u8,
    };
    (code, e.id)
}

pub open spec fn has_key(entities: Seq<SyncEntity>, key: (u8, u128)) -> bool {
    exists|i: int| 0 <= i < entities.len() && entity_key(entities[i]) == key
}

/// `i` is the last index of an entity with the key.
pub open spec fn is_last_with_key(entities: Seq<SyncEntity>, key: (u8, u128), i: int) -> bool {
    &&& 0 <= i < entities.len()
    &&& entity_key(entities[i]) == key
    &&& forall|j: int| i < j < entities.len() ==> entity_key(entities[j]) != key
}

/// The entity of a snapshot with a given key; where a key occurs twice the
/// later entity wins.
pub open spec fn lookup(entities: Seq<SyncEntity>, key: (u8, u128)) -> Option<SyncEntity> {
    if has_key(entities, key) {
        Some(entities[choose|i: int| is_last_with_key(entities, key, i)])
    } else {
        None
    }
}

/// The index of the entity that a key looks up.
fn find_entity(entities: &[SyncEntity], key: (u8, u128)) -> (r: Option<usize>)
    ensures
        match r {
            Some(j) => is_last_with_key(entities@, key, j as int) && lookup(entities@, key) == Some(
                entities@[j as int],
            ),
            None => !has_key(entities@, key) && lookup(entities@, key) is None,
        },
{
    let mut i = entities.len();
    while i > 0
        invariant
            i <= entities@.len(),
            forall|j: int| i <= j < entities@.len() ==> entity_key(entities@[j]) != key,
        decreases i,
    {
        let candidate = key_of(&entities[i - 1]);
        if candidate.0 == key.0 && candidate.1 == key.1 {
            proof {
                let k = (i - 1) as int;
                assert(is_last_with_key(entities@, key, k));
                let c = choose|c: int| is_last_with_key(entities@, key, c);
                if c < k {
                } else if c > k {
                }
                assert(c == k);
            }
            return Some(i - 1);
        }
        i = i - 1;
    }
    None
}

pub open spec fn keys_sorted(keys: Seq<(u8, u128)>) -> bool {
    forall|i: int, j: int| 0 <= i < j < keys.len() ==> key_lt(keys[i], keys[j])
}

/// Adds a key to a strictly sorted list of keys, once.
fn insert_key(keys: &mut Vec<(u8, u128)>, key: (u8, u128))
    requires
        keys_sorted(old(keys)@),
    ensures
        keys_sorted(final(keys)@),
        final(keys)@.to_set() == old(keys)@.to_set().insert(key),
        final(keys)@.len() <= old(keys)@.len() + 1,
{
    let ghost before = keys@;
    let n = keys.len();
    let mut p: usize = 0;
    while p < n && (keys[p].0 < key.0 || (keys[p].0 == key.0 && keys[p].1 < key.1))
        invariant
            n == before.len(),
            keys@ == before,
            p <= n,
            forall|k: int| 0 <= k < p ==> key_lt(before[k], key),
        decreases n - p,
    {
        p = p + 1;
    }
    if p < n && keys[p].0 == key.0 && keys[p].1 == key.1 {
        proof {
            assert(before.to_set().contains(key));
            assert(before.to_set().insert(key) =~= before.to_set());
        }
        return;
    }
    proof {
        assert forall|k: int| p <= k < n implies key_lt(key, before[k]) by {
            assert(!key_lt(before[p as int], key));
            if k > p {
                assert(key_lt(before[p as int], before[k]));
            }
        }
    }
    keys.insert(p, key);
    proof {
        let after = keys@;
        assert forall|i: int, j: int| 0 <= i < j < after.len() implies key_lt(after[i], after[j]) by {
            if j < p {
            } else if j == p {
            } else if i < p {
                assert(after[j] == before[j - 1]);
            } else if i == p {
                assert(after[j] == before[j - 1]);
            } else {
                assert(after[i] == before[i - 1]);
                assert(after[j] == before[j - 1]);
            }
        }
        assert forall|x: (u8, u128)| after.to_set().contains(x) <==> before.to_set().insert(key).contains(x) by {
            if after.to_set().contains(x) {
                let i = choose|i: int| 0 <= i < after.len() && after[i] == x;
                if i < p {
                    assert(after[i] == before[i]);
                } else if i > p {
                    assert(after[i] == before[i - 1]);
                }
            }
            if before.to_set().contains(x) {
                let i = choose|i: int| 0 <= i < before.len() && before[i] == x;
                if i < p {
                    assert(after[i] == before[i]);
                } else {
                    assert(after[i + 1] == before[i]);
                }
            }
            if x == key {
                assert(after[p as int] == key);
            }
        }
        assert(after.to_set() =~= before.to_set().insert(key));
    }
}

pub open spec fn key_set(entities: Seq<SyncEntity>) -> Set<(u8, u128)> {
    Set::new(|k: (u8, u128)| has_key(entities, k))
}

/// Some entity among the first `i` has the key.
pub open spec fn key_in_prefix(entities: Seq<SyncEntity>, i: int, k: (u8, u128)) -> bool {
    exists|j: int| 0 <= j < i && entity_key(entities[j]) == k
}

fn add_keys(keys: &mut Vec<(u8, u128)>, entities: &[SyncEntity])
    requires
        keys_sorted(old(keys)@),
    ensures
        keys_sorted(final(keys)@),
        final(keys)@.to_set() == old(keys)@.to_set().union(key_set(entities@)),
        final(keys)@.len() <= old(keys)@.len() + entities@.len(),
{
    let ghost before = keys@;
    let mut i: usize = 0;
    while i < entities.len()
        invariant
            i <= entities@.len(),
            keys_sorted(keys@),
            keys@.len() <= before.len() + i,
            keys@.to_set() == before.to_set().union(
                Set::new(|k: (u8, u128)| key_in_prefix(entities@, i as int, k)),
            ),
        decreases entities@.len() - i,
    {
        let key = key_of(&entities[i]);
        insert_key(keys, key);
        proof {
            assert forall|k: (u8, u128)| #[trigger] key_in_prefix(entities@, i + 1, k)
                <==> (key_in_prefix(entities@, i as int, k) || k == key) by {
                if k == key {
                    assert(0 <= i < i + 1 && entity_key(entities@[i as int]) == k);
                }
                if key_in_prefix(entities@, i + 1, k) {
                    let j = choose|j: int| 0 <= j < i + 1 && entity_key(entities@[j]) == k;
                    if j < i {
                        assert(0 <= j < i && entity_key(entities@[j]) == k);
                    }
                }
                if key_in_prefix(entities@, i as int, k) {
                    let j = choose|j: int| 0 <= j < i && entity_key(entities@[j]) == k;
                    assert(0 <= j < i + 1 && entity_key(entities@[j]) == k);
                }
            }
            assert(keys@.to_set() =~= before.to_set().union(
                Set::new(|k: (u8, u128)| key_in_prefix(entities@, i + 1, k)),
            ));
        }
        i = i + 1;
    }
    proof {
        assert(Set::new(|k: (u8, u128)| key_in_prefix(entities@, i as int, k)) =~= key_set(entities@));
    }
}

/// Two entities are the same: identifier, kind, fields and deletion mark.
pub open spec fn same_entity(a: SyncEntity, b: SyncEntity) -> bool {
    &&& a.id == b.id
    &&& a.kind == b.kind
    &&& fields_view(a.fields@) == fields_view(b.fields@)
    &&& a.deleted == b.deleted
}

pub fn entity_equals(a: &SyncEntity, b: &SyncEntity) -> (r: bool)
    ensures
        r == same_entity(*a, *b),
{
    if a.id != b.id || a.deleted != b.deleted || a.fields.len() != b.fields.len() {
        proof {
            assert(fields_view(a.fields@).len() == a.fields@.len());
            assert(fields_view(b.fields@).len() == b.fields@.len());
        }
        return false;
    }
    let kinds_equal = match (a.kind, b.kind) {
        (SyncEntityKind::Project, SyncEntityKind::Project) => true,
        (SyncEntityKind::Tag, SyncEntityKind::Tag) => true,
        (SyncEntityKind::Task, SyncEntityKind::Task) => true,
        _ => false,
    };
    if !kinds_equal {
        return false;
    }
    let n = a.fields.len();
    let mut i: usize = 0;
    while i < n
        invariant
            n == a.fields@.len(),
            n == b.fields@.len(),
            i <= n,
            forall|k: int| 0 <= k < i ==> a.fields@[k].name@ == b.fields@[k].name@ && a.fields@[k].value@
                == b.fields@[k].value@,
        decreases n - i,
    {
        if !str_equals(a.fields[i].name.as_str(), b.fields[i].name.as_str()) || !str_equals(
            a.fields[i].value.as_str(),
            b.fields[i].value.as_str(),
        ) {
            proof {
                assert(fields_view(a.fields@)[i as int] != fields_view(b.fields@)[i as int]);
            }
            return false;
        }
        i = i + 1;
    }
    proof {
        assert(fields_view(a.fields@) =~= fields_view(b.fields@));
    }
    true
}

pub open spec fn entity_view(e: SyncEntity) -> ValueView {
    ValueView::Entity(fields_view(e.fields@))
}

/// The record of a conflict between a deletion on one side and a change on the other.
pub open spec fn delete_conflict_view(base: SyncEntity, local: Option<SyncEntity>, remote: Option<SyncEntity>) -> ConflictView {
    let kept = if local is Some { local->Some_0 } else { remote->Some_0 };
    ConflictView {
        entity_id: kept.id,
        entity_kind: kept.kind,
        field_name: "__entity__"@,
        local_value: match local {
            Some(e) => Some(entity_view(e)),
            None => None,
        },
        remote_value: match remote {
            Some(e) => Some(entity_view(e)),
            None => None,
        },
        base_value: Some(entity_view(base)),
    }
}

/// The record of two different entities created under one key on both sides.
pub open spec fn entity_conflict_view(local: SyncEntity, remote: SyncEntity) -> ConflictView {
    ConflictView {
        entity_id: local.id,
        entity_kind: local.kind,
        field_name: "__entity__"@,
        local_value: Some(entity_view(local)),
        remote_value: Some(entity_view(remote)),
        base_value: None,
    }
}

/// The versions of a key merge into an entity of the plan.
pub open spec fn yields_entity(b: Option<SyncEntity>, l: Option<SyncEntity>, r: Option<SyncEntity>) -> bool {
    match (b, l, r) {
        (None, Some(_), None) => true,
        (None, None, Some(_)) => true,
        (None, Some(x), Some(y)) => same_entity(x, y),
        (Some(_), Some(_), Some(_)) => true,
        _ => false,
    }
}

/// `e` is the entity that the versions of a key merge into.
pub open spec fn is_merged_entity(e: SyncEntity, b: Option<SyncEntity>, l: Option<SyncEntity>, r: Option<SyncEntity>) -> bool {
    match (b, l, r) {
        (None, Some(x), None) => same_entity(e, x) && e.wf(),
        (None, None, Some(x)) => same_entity(e, x) && e.wf(),
        (None, Some(x), Some(y)) => same_entity(x, y) && same_entity(e, x) && e.wf(),
        (Some(x), Some(y), Some(z)) => e.id == y.id && e.kind == y.kind && e.deleted == y.deleted
            && e.wf() && field_map(e.fields@) == merged_fields(x, y, z),
        _ => false,
    }
}

/// The versions of a key conflict under the field name `name`.
pub open spec fn has_conflict(b: Option<SyncEntity>, l: Option<SyncEntity>, r: Option<SyncEntity>, name: Seq<char>) -> bool {
    match (b, l, r) {
        (Some(x), Some(y), None) => !same_entity(y, x) && name == "__entity__"@,
        (Some(x), None, Some(z)) => !same_entity(z, x) && name == "__entity__"@,
        (None, Some(y), Some(z)) => !same_entity(y, z) && name == "__entity__"@,
        (Some(x), Some(y), Some(z)) => in_any_fields(x, y, z, name) && is_field_conflict(x, y, z, name),
        _ => false,
    }
}

/// `c` is the record of the conflict of the versions of a key under its field name.
pub open spec fn is_conflict_record(c: SyncFieldConflict, b: Option<SyncEntity>, l: Option<SyncEntity>, r: Option<SyncEntity>) -> bool {
    &&& has_conflict(b, l, r, c.field_name@)
    &&& c@ == match (b, l, r) {
        (Some(x), Some(y), None) => delete_conflict_view(x, Some(y), None),
        (Some(x), None, Some(z)) => delete_conflict_view(x, None, Some(z)),
        (None, Some(y), Some(z)) => entity_conflict_view(y, z),
        (Some(x), Some(y), Some(z)) => field_conflict_view(x, y, z, c.field_name@),
        _ => c@,
    }
}

/// Only the local side has the entity: it is new locally, or the remote side deleted it unchanged.
pub open spec fn counts_local_only(b: Option<SyncEntity>, l: Option<SyncEntity>, r: Option<SyncEntity>) -> bool {
    match (b, l, r) {
        (None, Some(_), None) => true,
        (Some(x), None, Some(z)) => same_entity(z, x),
        _ => false,
    }
}

/// Only the remote side has the entity: it is new remotely, or the local side deleted it unchanged.
pub open spec fn counts_remote_only(b: Option<SyncEntity>, l: Option<SyncEntity>, r: Option<SyncEntity>) -> bool {
    match (b, l, r) {
        (None, None, Some(_)) => true,
        (Some(x), Some(y), None) => same_entity(y, x),
        _ => false,
    }
}

pub open spec fn counts_merged(b: Option<SyncEntity>, l: Option<SyncEntity>, r: Option<SyncEntity>) -> bool {
    b is Some && l is Some && r is Some
}

pub open spec fn conflict_key(c: SyncFieldConflict) -> (u8, u128) {
    (kind_code(c.entity_kind), c.entity_id)
}

/// Each conflict of the versions appears among `batch` under its field name.
pub open spec fn covers_conflicts(
    batch: Seq<SyncFieldConflict>,
    b: Option<SyncEntity>,
    l: Option<SyncEntity>,
    r: Option<SyncEntity>,
) -> bool {
    forall|n: Seq<char>| has_conflict(b, l, r, n) ==> exists|j: int| 0 <= j < batch.len() && batch[j].field_name@ == n
}

/// The versions of one key merged: the entity of the plan, its conflicts in
/// order of field name, and which counters it adds to.
fn merge_key(
    b: Option<&SyncEntity>,
    l: Option<&SyncEntity>,
    r: Option<&SyncEntity>,
    Ghost(key): Ghost<(u8, u128)>,
) -> (out: (Option<SyncEntity>, Vec<SyncFieldConflict>, bool, bool, bool))
    requires
        b matches Some(x) ==> x.wf() && entity_key(*x) == key,
        l matches Some(x) ==> x.wf() && entity_key(*x) == key,
        r matches Some(x) ==> x.wf() && entity_key(*x) == key,
    ensures
        ({
            let (bs, ls, rs) = (
                match b { Some(x) => Some(*x), None => None },
                match l { Some(x) => Some(*x), None => None },
                match r { Some(x) => Some(*x), None => None },
            );
            &&& out.0 is Some <==> yields_entity(bs, ls, rs)
            &&& out.0 matches Some(e) ==> is_merged_entity(e, bs, ls, rs) && entity_key(e) == key
            &&& conflicts_sorted_by_name(out.1@)
            &&& forall|i: int| #![trigger out.1@[i]] 0 <= i < out.1@.len() ==> is_conflict_record(out.1@[i], bs, ls, rs)
                && conflict_key(out.1@[i]) == key
            &&& covers_conflicts(out.1@, bs, ls, rs)
            &&& out.2 == counts_local_only(bs, ls, rs)
            &&& out.3 == counts_remote_only(bs, ls, rs)
            &&& out.4 == counts_merged(bs, ls, rs)
        }),
{
    let mut conflicts: Vec<SyncFieldConflict> = Vec::new();
    proof {
        reveal_strlit("__entity__");
    }
    match (b, l, r) {
        (None, Some(x), None) => (Some(x.clone()), conflicts, true, false, false),
        (None, None, Some(x)) => (Some(x.clone()), conflicts, false, true, false),
        (Some(x), Some(y), None) => {
            if entity_equals(y, x) {
                (None, conflicts, false, true, false)
            } else {
                conflicts.push(
                    SyncFieldConflict {
                        entity_id: y.id,
                        entity_kind: y.kind,
                        field_name: "__entity__".to_owned(),
                        local_value: Some(SyncValue::Entity(crate::sync::clone_fields(&y.fields))),
                        remote_value: None,
                        base_value: Some(SyncValue::Entity(crate::sync::clone_fields(&x.fields))),
                    },
                );
                proof {
                    assert(conflicts@[0].field_name@ == "__entity__"@);
                }
                (None, conflicts, false, false, false)
            }
        },
        (Some(x), None, Some(z)) => {
            if entity_equals(z, x) {
                (None, conflicts, true, false, false)
            } else {
                conflicts.push(
                    SyncFieldConflict {
                        entity_id: z.id,
                        entity_kind: z.kind,
                        field_name: "__entity__".to_owned(),
                        local_value: None,
                        remote_value: Some(SyncValue::Entity(crate::sync::clone_fields(&z.fields))),
                        base_value: Some(SyncValue::Entity(crate::sync::clone_fields(&x.fields))),
                    },
                );
                proof {
                    assert(conflicts@[0].field_name@ == "__entity__"@);
                }
                (None, conflicts, false, false, false)
            }
        },
        (None, Some(y), Some(z)) => {
            if entity_equals(y, z) {
                (Some(y.clone()), conflicts, false, false, false)
            } else {
                conflicts.push(
                    SyncFieldConflict {
                        entity_id: y.id,
                        entity_kind: y.kind,
                        field_name: "__entity__".to_owned(),
                        local_value: Some(SyncValue::Entity(crate::sync::clone_fields(&y.fields))),
                        remote_value: Some(SyncValue::Entity(crate::sync::clone_fields(&z.fields))),
                        base_value: None,
                    },
                );
                proof {
                    assert(conflicts@[0].field_name@ == "__entity__"@);
                }
                (None, conflicts, false, false, false)
            }
        },
        (Some(x), Some(y), Some(z)) => {
            let (merged, field_conflicts) = merge_entity(x, y, z);
            (Some(merged), field_conflicts, false, false, true)
        },
        _ => (None, conflicts, false, false, false),
    }
}

/// The keys of all three snapshots.
pub open spec fn merge_keys(base: Seq<SyncEntity>, local: Seq<SyncEntity>, remote: Seq<SyncEntity>) -> Set<
    (u8, u128),
> {
    key_set(base).union(key_set(local)).union(key_set(remote))
}

pub open spec fn all_wf(entities: Seq<SyncEntity>) -> bool {
    forall|i: int| 0 <= i < entities.len() ==> #[trigger] entities[i].wf()
}

pub open spec fn entities_sorted(entities: Seq<SyncEntity>) -> bool {
    forall|i: int, j: int| 0 <= i < j < entities.len() ==> key_lt(entity_key(entities[i]), entity_key(entities[j]))
}

/// Conflicts are ordered by kind, identifier, then field name.
pub open spec fn conflict_lt(a: SyncFieldConflict, b: SyncFieldConflict) -> bool {
    ||| key_lt(conflict_key(a), conflict_key(b))
    ||| conflict_key(a) == conflict_key(b) && text_lt(a.field_name@, b.field_name@)
}

pub open spec fn conflicts_sorted(conflicts: Seq<SyncFieldConflict>) -> bool {
    forall|i: int, j: int| 0 <= i < j < conflicts.len() ==> conflict_lt(conflicts[i], conflicts[j])
}

/// `e` is the merge of the three versions of its key.
pub open spec fn plan_entity_ok(base: Seq<SyncEntity>, local: Seq<SyncEntity>, remote: Seq<SyncEntity>, e: SyncEntity) -> bool {
    let k = entity_key(e);
    &&& merge_keys(base, local, remote).contains(k)
    &&& is_merged_entity(e, lookup(base, k), lookup(local, k), lookup(remote, k))
}

/// `c` records a conflict of the three versions of its key.
pub open spec fn plan_conflict_ok(
    base: Seq<SyncEntity>,
    local: Seq<SyncEntity>,
    remote: Seq<SyncEntity>,
    c: SyncFieldConflict,
) -> bool {
    let k = conflict_key(c);
    &&& merge_keys(base, local, remote).contains(k)
    &&& is_conflict_record(c, lookup(base, k), lookup(local, k), lookup(remote, k))
}

pub open spec fn local_only_pred(base: Seq<SyncEntity>, local: Seq<SyncEntity>, remote: Seq<SyncEntity>) -> spec_fn(
    (u8, u128),
) -> bool {
    |k: (u8, u128)| counts_local_only(lookup(base, k), lookup(local, k), lookup(remote, k))
}

pub open spec fn remote_only_pred(base: Seq<SyncEntity>, local: Seq<SyncEntity>, remote: Seq<SyncEntity>) -> spec_fn(
    (u8, u128),
) -> bool {
    |k: (u8, u128)| counts_remote_only(lookup(base, k), lookup(local, k), lookup(remote, k))
}

pub open spec fn merged_pred(base: Seq<SyncEntity>, local: Seq<SyncEntity>, remote: Seq<SyncEntity>) -> spec_fn(
    (u8, u128),
) -> bool {
    |k: (u8, u128)| counts_merged(lookup(base, k), lookup(local, k), lookup(remote, k))
}

pub open spec fn local_only_keys(base: Seq<SyncEntity>, local: Seq<SyncEntity>, remote: Seq<SyncEntity>) -> Set<
    (u8, u128),
> {
    merge_keys(base, local, remote).filter(local_only_pred(base, local, remote))
}

pub open spec fn remote_only_keys(base: Seq<SyncEntity>, local: Seq<SyncEntity>, remote: Seq<SyncEntity>) -> Set<
    (u8, u128),
> {
    merge_keys(base, local, remote).filter(remote_only_pred(base, local, remote))
}

pub open spec fn merged_keys(base: Seq<SyncEntity>, local: Seq<SyncEntity>, remote: Seq<SyncEntity>) -> Set<
    (u8, u128),
> {
    merge_keys(base, local, remote).filter(merged_pred(base, local, remote))
}

/// A counter of the summary: the count, as a `u32` counter wraps.
pub open spec fn counter(n: int) -> int {
    n % 4294967296
}

/// `plan` is the three-way merge of the snapshots.
pub open spec fn is_merge_plan(plan: MergePlan, base: Seq<SyncEntity>, local: Seq<SyncEntity>, remote: Seq<SyncEntity>) -> bool {
    let es = plan.entities@;
    let cs = plan.conflicts@;
    &&& entities_sorted(es)
    &&& forall|i: int| 0 <= i < es.len() ==> plan_entity_ok(base, local, remote, #[trigger] es[i])
    &&& forall|k: (u8, u128)| #[trigger] merge_keys(base, local, remote).contains(k) && yields_entity(
        lookup(base, k),
        lookup(local, k),
        lookup(remote, k),
    ) ==> exists|i: int| 0 <= i < es.len() && entity_key(es[i]) == k
    &&& conflicts_sorted(cs)
    &&& forall|i: int| 0 <= i < cs.len() ==> plan_conflict_ok(base, local, remote, #[trigger] cs[i])
    &&& forall|k: (u8, u128), n: Seq<char>| #[trigger] merge_keys(base, local, remote).contains(k) && #[trigger] has_conflict(
        lookup(base, k),
        lookup(local, k),
        lookup(remote, k),
        n,
    ) ==> exists|i: int| 0 <= i < cs.len() && conflict_key(cs[i]) == k && cs[i].field_name@ == n
    &&& plan.summary.local_only == counter(local_only_keys(base, local, remote).len() as int)
    &&& plan.summary.remote_only == counter(remote_only_keys(base, local, remote).len() as int)
    &&& plan.summary.merged == counter(merged_keys(base, local, remote).len() as int)
    &&& plan.summary.conflicts == counter(cs.len() as int)
}

pub(crate) fn wrap_count(n: usize) -> (r: u32)
    ensures
        r == counter(n as int),
{
    let wide: u64 = n as u64;
    (wide % 4294967296u64) as u32
}

pub open spec fn key_prefix_has(keys: Seq<(u8, u128)>, i: int, k: (u8, u128)) -> bool {
    exists|m: int| 0 <= m < i && keys[m] == k
}

proof fn lemma_filter_insert_len(s: Set<(u8, u128)>, k: (u8, u128), p: spec_fn((u8, u128)) -> bool)
    requires
        s.finite(),
        !s.contains(k),
    ensures
        s.insert(k).filter(p).finite(),
        s.insert(k).filter(p).len() == s.filter(p).len() + if p(k) {
            1int
        } else {
            0int
        },
        s.filter(p).len() <= s.len(),
{
    s.lemma_len_filter(p);
    s.insert(k).lemma_len_filter(p);
    if p(k) {
        assert(s.insert(k).filter(p) =~= s.filter(p).insert(k));
    } else {
        assert(s.insert(k).filter(p) =~= s.filter(p));
    }
}

/// One key of the merge keeps the invariant of the merged plan.
proof fn lemma_merge_step(
    bs: Seq<SyncEntity>,
    ls: Seq<SyncEntity>,
    rs: Seq<SyncEntity>,
    all: Seq<(u8, u128)>,
    i: int,
    entity: Option<SyncEntity>,
    old_es: Seq<SyncEntity>,
    es: Seq<SyncEntity>,
    old_cs: Seq<SyncFieldConflict>,
    batch: Seq<SyncFieldConflict>,
    cs: Seq<SyncFieldConflict>,
)
    requires
        keys_sorted(all),
        all.to_set() == merge_keys(bs, ls, rs),
        0 <= i < all.len(),
        entities_sorted(old_es),
        forall|j: int| 0 <= j < old_es.len() ==> plan_entity_ok(bs, ls, rs, #[trigger] old_es[j])
            && key_prefix_has(all, i, entity_key(old_es[j])),
        forall|j: int| 0 <= j < old_es.len() && i < all.len() ==> key_lt(entity_key(#[trigger] old_es[j]), all[i]),
        forall|m: int| 0 <= m < i && yields_entity(
            lookup(bs, #[trigger] all[m]),
            lookup(ls, all[m]),
            lookup(rs, all[m]),
        ) ==> exists|j: int| 0 <= j < old_es.len() && entity_key(old_es[j]) == all[m],
        entity is Some <==> yields_entity(lookup(bs, all[i]), lookup(ls, all[i]), lookup(rs, all[i])),
        entity matches Some(e) ==> is_merged_entity(e, lookup(bs, all[i]), lookup(ls, all[i]), lookup(rs, all[i]))
            && entity_key(e) == all[i],
        es == match entity {
            Some(e) => old_es.push(e),
            None => old_es,
        },
        conflicts_sorted(old_cs),
        forall|j: int| 0 <= j < old_cs.len() ==> plan_conflict_ok(bs, ls, rs, #[trigger] old_cs[j])
            && key_prefix_has(all, i, conflict_key(old_cs[j])),
        forall|j: int| 0 <= j < old_cs.len() && i < all.len() ==> key_lt(conflict_key(#[trigger] old_cs[j]), all[i]),
        forall|m: int, n: Seq<char>| 0 <= m < i && #[trigger] has_conflict(
            lookup(bs, all[m]),
            lookup(ls, all[m]),
            lookup(rs, all[m]),
            n,
        ) ==> exists|j: int| 0 <= j < old_cs.len() && conflict_key(old_cs[j]) == all[m] && old_cs[j].field_name@ == n,
        conflicts_sorted_by_name(batch),
        forall|j: int| #![trigger batch[j]] 0 <= j < batch.len() ==> is_conflict_record(
            batch[j],
            lookup(bs, all[i]),
            lookup(ls, all[i]),
            lookup(rs, all[i]),
        ) && conflict_key(batch[j]) == all[i],
        covers_conflicts(batch, lookup(bs, all[i]), lookup(ls, all[i]), lookup(rs, all[i])),
        cs == old_cs + batch,
    ensures
        entities_sorted(es),
        forall|j: int| 0 <= j < es.len() ==> plan_entity_ok(bs, ls, rs, #[trigger] es[j]) && key_prefix_has(
            all,
            i + 1,
            entity_key(es[j]),
        ),
        forall|j: int| 0 <= j < es.len() && i + 1 < all.len() ==> key_lt(entity_key(#[trigger] es[j]), all[i + 1]),
        forall|m: int| 0 <= m < i + 1 && yields_entity(
            lookup(bs, #[trigger] all[m]),
            lookup(ls, all[m]),
            lookup(rs, all[m]),
        ) ==> exists|j: int| 0 <= j < es.len() && entity_key(es[j]) == all[m],
        conflicts_sorted(cs),
        forall|j: int| 0 <= j < cs.len() ==> plan_conflict_ok(bs, ls, rs, #[trigger] cs[j]) && key_prefix_has(
            all,
            i + 1,
            conflict_key(cs[j]),
        ),
        forall|j: int| 0 <= j < cs.len() && i + 1 < all.len() ==> key_lt(conflict_key(#[trigger] cs[j]), all[i + 1]),
        forall|m: int, n: Seq<char>| 0 <= m < i + 1 && #[trigger] has_conflict(
            lookup(bs, all[m]),
            lookup(ls, all[m]),
            lookup(rs, all[m]),
            n,
        ) ==> exists|j: int| 0 <= j < cs.len() && conflict_key(cs[j]) == all[m] && cs[j].field_name@ == n,
{
    let key = all[i];
    assert(all.to_set().contains(key));
    assert(key_prefix_has(all, i + 1, key));
    assert forall|k: (u8, u128)| key_prefix_has(all, i, k) implies key_prefix_has(all, i + 1, k) by {
        let m = choose|m: int| 0 <= m < i && all[m] == k;
        assert(0 <= m < i + 1 && all[m] == k);
    }
    if i + 1 < all.len() {
        assert(key_lt(all[i], all[i + 1]));
    }
    // entities
    assert forall|j: int| 0 <= j < es.len() implies plan_entity_ok(bs, ls, rs, #[trigger] es[j]) && key_prefix_has(
        all,
        i + 1,
        entity_key(es[j]),
    ) by {
        if j < old_es.len() {
            assert(es[j] == old_es[j]);
            assert(key_prefix_has(all, i, entity_key(old_es[j])));
        }
    }
    assert forall|j: int| 0 <= j < es.len() && i + 1 < all.len() implies key_lt(entity_key(#[trigger] es[j]), all[i + 1]) by {
        if j < old_es.len() {
            assert(es[j] == old_es[j]);
            assert(key_lt(entity_key(old_es[j]), all[i]));
        }
    }
    assert forall|a: int, b: int| 0 <= a < b < es.len() implies key_lt(entity_key(es[a]), entity_key(es[b])) by {
        assert(es[a] == old_es[a]);
        if b < old_es.len() {
            assert(es[b] == old_es[b]);
        } else {
            assert(key_lt(entity_key(old_es[a]), all[i]));
        }
    }
    assert forall|m: int| 0 <= m < i + 1 && yields_entity(
        lookup(bs, #[trigger] all[m]),
        lookup(ls, all[m]),
        lookup(rs, all[m]),
    ) implies exists|j: int| 0 <= j < es.len() && entity_key(es[j]) == all[m] by {
        if m < i {
            let j = choose|j: int| 0 <= j < old_es.len() && entity_key(old_es[j]) == all[m];
            assert(es[j] == old_es[j]);
        } else {
            assert(es[old_es.len() as int] == entity->Some_0);
        }
    }
    // conflicts
    assert forall|j: int| 0 <= j < cs.len() implies plan_conflict_ok(bs, ls, rs, #[trigger] cs[j]) && key_prefix_has(
        all,
        i + 1,
        conflict_key(cs[j]),
    ) by {
        if j < old_cs.len() {
            assert(cs[j] == old_cs[j]);
            assert(key_prefix_has(all, i, conflict_key(old_cs[j])));
        } else {
            assert(cs[j] == batch[j - old_cs.len()]);
        }
    }
    assert forall|j: int| 0 <= j < cs.len() && i + 1 < all.len() implies key_lt(conflict_key(#[trigger] cs[j]), all[i + 1]) by {
        if j < old_cs.len() {
            assert(cs[j] == old_cs[j]);
            assert(key_lt(conflict_key(old_cs[j]), all[i]));
        } else {
            assert(cs[j] == batch[j - old_cs.len()]);
        }
    }
    assert forall|a: int, b: int| 0 <= a < b < cs.len() implies conflict_lt(cs[a], cs[b]) by {
        if b < old_cs.len() {
            assert(cs[a] == old_cs[a]);
            assert(cs[b] == old_cs[b]);
        } else if a < old_cs.len() {
            assert(cs[a] == old_cs[a]);
            assert(cs[b] == batch[b - old_cs.len()]);
            assert(key_lt(conflict_key(old_cs[a]), all[i]));
        } else {
            assert(cs[a] == batch[a - old_cs.len()]);
            assert(cs[b] == batch[b - old_cs.len()]);
        }
    }
    assert forall|m: int, n: Seq<char>| 0 <= m < i + 1 && #[trigger] has_conflict(
        lookup(bs, all[m]),
        lookup(ls, all[m]),
        lookup(rs, all[m]),
        n,
    ) implies exists|j: int| 0 <= j < cs.len() && conflict_key(cs[j]) == all[m] && cs[j].field_name@ == n by {
        if m < i {
            let j = choose|j: int| 0 <= j < old_cs.len() && conflict_key(old_cs[j]) == all[m] && old_cs[j].field_name@ == n;
            assert(cs[j] == old_cs[j]);
        } else {
            let j = choose|j: int| 0 <= j < batch.len() && batch[j].field_name@ == n;
            assert(cs[old_cs.len() + j] == batch[j]);
        }
    }
}

/// Merges three snapshots key by key: the entities of the plan in order of
/// key, the conflicts in order of key and field name, and the counts.
pub fn merge_snapshots(base: &[SyncEntity], local: &[SyncEntity], remote: &[SyncEntity]) -> (plan: MergePlan)
    requires
        all_wf(base@),
        all_wf(local@),
        all_wf(remote@),
    ensures
        is_merge_plan(plan, base@, local@, remote@),
{
    let ghost (bs, ls, rs) = (base@, local@, remote@);
    let mut keys: Vec<(u8, u128)> = Vec::new();
    add_keys(&mut keys, base);
    add_keys(&mut keys, local);
    add_keys(&mut keys, remote);
    proof {
        assert(keys@.to_set() =~= merge_keys(bs, ls, rs));
    }
    let ghost all = keys@;
    let ghost p_local = local_only_pred(bs, ls, rs);
    let ghost p_remote = remote_only_pred(bs, ls, rs);
    let ghost p_merged = merged_pred(bs, ls, rs);
    let ghost mut done: Set<(u8, u128)> = Set::empty();
    let mut entities: Vec<SyncEntity> = Vec::new();
    let mut conflicts: Vec<SyncFieldConflict> = Vec::new();
    let mut local_only: usize = 0;
    let mut remote_only: usize = 0;
    let mut merged: usize = 0;
    let mut i: usize = 0;
    proof {
        assert(done.filter(p_local) =~= Set::empty());
        assert(done.filter(p_remote) =~= Set::empty());
        assert(done.filter(p_merged) =~= Set::empty());
    }
    while i < keys.len()
        invariant
            keys@ == all,
            keys_sorted(all),
            all.to_set() == merge_keys(bs, ls, rs),
            bs == base@,
            ls == local@,
            rs == remote@,
            all_wf(bs),
            all_wf(ls),
            all_wf(rs),
            i <= all.len(),
            entities_sorted(entities@),
            forall|j: int| 0 <= j < entities@.len() ==> plan_entity_ok(bs, ls, rs, #[trigger] entities@[j])
                && key_prefix_has(all, i as int, entity_key(entities@[j])),
            forall|j: int| 0 <= j < entities@.len() && i < all.len() ==> key_lt(
                entity_key(#[trigger] entities@[j]),
                all[i as int],
            ),
            forall|m: int| 0 <= m < i && yields_entity(
                lookup(bs, #[trigger] all[m]),
                lookup(ls, all[m]),
                lookup(rs, all[m]),
            ) ==> exists|j: int| 0 <= j < entities@.len() && entity_key(entities@[j]) == all[m],
            conflicts_sorted(conflicts@),
            forall|j: int| 0 <= j < conflicts@.len() ==> plan_conflict_ok(bs, ls, rs, #[trigger] conflicts@[j])
                && key_prefix_has(all, i as int, conflict_key(conflicts@[j])),
            forall|j: int| 0 <= j < conflicts@.len() && i < all.len() ==> key_lt(
                conflict_key(#[trigger] conflicts@[j]),
                all[i as int],
            ),
            forall|m: int, n: Seq<char>| 0 <= m < i && #[trigger] has_conflict(
                lookup(bs, all[m]),
                lookup(ls, all[m]),
                lookup(rs, all[m]),
                n,
            ) ==> exists|j: int| 0 <= j < conflicts@.len() && conflict_key(conflicts@[j]) == all[m]
                && conflicts@[j].field_name@ == n,
            done.finite(),
            done.len() == i,
            forall|k: (u8, u128)| #[trigger] done.contains(k) <==> key_prefix_has(all, i as int, k),
            p_local == local_only_pred(bs, ls, rs),
            local_only == done.filter(p_local).len(),
            p_remote == remote_only_pred(bs, ls, rs),
            remote_only == done.filter(p_remote).len(),
            p_merged == merged_pred(bs, ls, rs),
            merged == done.filter(p_merged).len(),
            local_only <= i,
            remote_only <= i,
            merged <= i,
        decreases all.len() - i,
    {
        let key = keys[i];
        let bi = find_entity(base, key);
        let li = find_entity(local, key);
        let ri = find_entity(remote, key);
        let b = match bi {
            Some(j) => Some(&base[j]),
            None => None,
        };
        let l = match li {
            Some(j) => Some(&local[j]),
            None => None,
        };
        let r = match ri {
            Some(j) => Some(&remote[j]),
            None => None,
        };
        proof {
            if bi is Some {
                assert(bs[bi->Some_0 as int].wf());
            }
            if li is Some {
                assert(ls[li->Some_0 as int].wf());
            }
            if ri is Some {
                assert(rs[ri->Some_0 as int].wf());
            }
        }
        let (entity, mut batch, lo, ro, me) = merge_key(b, l, r, Ghost(key));
        proof {
            assert(lookup(bs, key) == match b {
                Some(x) => Some(*x),
                None => None,
            });
            assert(lookup(ls, key) == match l {
                Some(x) => Some(*x),
                None => None,
            });
            assert(lookup(rs, key) == match r {
                Some(x) => Some(*x),
                None => None,
            });
            assert(lo == p_local(key));
            assert(ro == p_remote(key));
            assert(me == p_merged(key));
            assert(all.to_set().contains(key));
            assert(key_prefix_has(all, i + 1, key));
            assert(!done.contains(key)) by {
                if done.contains(key) {
                    let m = choose|m: int| 0 <= m < i && all[m] == key;
                    assert(key_lt(all[m], all[i as int]));
                }
            }
            lemma_filter_insert_len(done, key, p_local);
            lemma_filter_insert_len(done, key, p_remote);
            lemma_filter_insert_len(done, key, p_merged);
        }
        let ghost old_entities = entities@;
        let ghost merged_entity = entity;
        match entity {
            Some(e) => {
                entities.push(e);
            },
            None => {},
        }
        let ghost old_conflicts = conflicts@;
        let ghost new_batch = batch@;
        conflicts.append(&mut batch);
        if lo {
            local_only = local_only + 1;
        }
        if ro {
            remote_only = remote_only + 1;
        }
        if me {
            merged = merged + 1;
        }
        proof {
            lemma_merge_step(
                bs,
                ls,
                rs,
                all,
                i as int,
                merged_entity,
                old_entities,
                entities@,
                old_conflicts,
                new_batch,
                conflicts@,
            );
            done = done.insert(key);
            assert forall|k: (u8, u128)| #[trigger] done.contains(k) <==> key_prefix_has(all, i + 1, k) by {
                if key_prefix_has(all, i + 1, k) && k != key {
                    let m = choose|m: int| 0 <= m < i + 1 && all[m] == k;
                    assert(key_prefix_has(all, i as int, k));
                }
                if key_prefix_has(all, i as int, k) {
                    let m = choose|m: int| 0 <= m < i && all[m] == k;
                    assert(0 <= m < i + 1 && all[m] == k);
                }
            }
        }
        i = i + 1;
    }
    proof {
        assert(done =~= merge_keys(bs, ls, rs)) by {
            assert forall|k: (u8, u128)| done.contains(k) <==> all.to_set().contains(k) by {
                if all.to_set().contains(k) {
                    let m = choose|m: int| 0 <= m < all.len() && all[m] == k;
                    assert(key_prefix_has(all, i as int, k));
                }
            }
        }
    }
    let summary = MergeSummary {
        local_only: wrap_count(local_only),
        remote_only: wrap_count(remote_only),
        merged: wrap_count(merged),
        conflicts: wrap_count(conflicts.len()),
    };
    MergePlan { entities, conflicts, summary }
}

} // verus!
