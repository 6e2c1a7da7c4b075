//! Resolving a conflict of a merge plan: keep the local value, accept the
//! remote one, or keep both as two entities.
use vstd::prelude::*;
use vstd::string::StringExecFns;

use crate::ids::{hyphenated, id_text};
use crate::recurrence::str_equals;
use crate::sync::{
    clone_fields, field_map, fields_sorted, fields_with_last_values, find_field, normalized_fields,
    set_field, SyncEntity, SyncField,
};
use crate::sync_merge::{MergeDecision, SyncFieldConflict, SyncValue};

verus! {

/// Appended to the title (or name) of the second copy of a conflicting entity.
pub const CONFLICT_COPY_SUFFIX: &'static str = "（冲突副本）";

/// What `serde_json` decodes from a text when the text is a JSON string.
pub uninterp spec fn json_string_value(text: Seq<char>) -> Option<Seq<char>>;

/// The JSON text that `serde_json` writes for a string.
pub uninterp spec fn json_string_text(value: Seq<char>) -> Seq<char>;

/// The string that a JSON text holds, if it holds a string.
///
/// Calls `serde_json::from_str::<String>`; its result is named by `json_string_value`.
#[verifier::external_body]
fn decode_json_string(text: &str) -> (r: Option<String>)
    ensures
        match r {
            Some(s) => json_string_value(text@) == Some(s@),
            None => json_string_value(text@) is None,
        },
{
    serde_json::from_str::<String>(text).ok()
}

/// The JSON text of a string.
///
/// Writes `serde_json::Value::String` with its `Display`; the text is named
/// by `json_string_text`, and decoding it gives the string back.
#[verifier::external_body]
fn encode_json_string(value: &str) -> (r: String)
    ensures
        r@ == json_string_text(value@),
        json_string_value(r@) == Some(value@),
{
    serde_json::Value::String(value.to_owned()).to_string()
}

pub open spec fn ends_with(s: Seq<char>, suffix: Seq<char>) -> bool {
    s.len() >= suffix.len() && s.subrange(s.len() - suffix.len(), s.len() as int) == suffix
}

/// A JSON object of the fields, without its closing brace.
pub open spec fn object_open(fields: Seq<SyncField>) -> Seq<char>
    decreases fields.len(),
{
    if fields.len() == 0 {
        "{"@
    } else {
        object_open(fields.drop_last()) + (if fields.len() > 1 {
            ","@
        } else {
            Seq::empty()
        }) + json_string_text(fields.last().name@) + ":"@ + fields.last().value@
    }
}

/// The fields of an entity written as a JSON object, in their order.
pub open spec fn object_text(fields: Seq<SyncField>) -> Seq<char> {
    object_open(fields) + "}"@
}

fn object_json_text(fields: &Vec<SyncField>) -> (r: String)
    ensures
        r@ == object_text(fields@),
{
    let mut out = String::from_str("{");
    let mut i: usize = 0;
    proof {
        assert(fields@.subrange(0, 0).len() == 0);
    }
    while i < fields.len()
        invariant
            i <= fields@.len(),
            out@ == object_open(fields@.subrange(0, i as int)),
        decreases fields@.len() - i,
    {
        let ghost before = out@;
        if i > 0 {
            out.append(",");
        }
        let name = encode_json_string(fields[i].name.as_str());
        out.append(name.as_str());
        out.append(":");
        out.append(fields[i].value.as_str());
        proof {
            let pre = fields@.subrange(0, i + 1);
            assert(pre.drop_last() =~= fields@.subrange(0, i as int));
            assert(pre.last() == fields@[i as int]);
            if i > 0 {
                assert(out@ =~= object_open(pre));
            } else {
                assert(out@ =~= object_open(pre));
            }
        }
        i = i + 1;
    }
    out.append("}");
    proof {
        assert(fields@.subrange(0, fields@.len() as int) =~= fields@);
    }
    out
}

/// `r` is `entity` after `value` was written to the field `name` of a
/// conflict: to the whole entity for the entity field (its fields, or a
/// deletion where the value is absent), else to that one field.
pub open spec fn is_updated(r: SyncEntity, entity: SyncEntity, name: Seq<char>, value: Option<SyncValue>) -> bool {
    &&& r.id == entity.id
    &&& r.kind == entity.kind
    &&& r.wf()
    &&& if name == "__entity__"@ {
        match value {
            Some(SyncValue::Entity(fields)) => field_map(r.fields@) == fields_with_last_values(fields@) && !r.deleted,
            Some(SyncValue::Json(_)) => field_map(r.fields@) == field_map(entity.fields@) && r.deleted
                == entity.deleted,
            None => field_map(r.fields@) == field_map(entity.fields@) && r.deleted,
        }
    } else {
        &&& r.deleted == entity.deleted
        &&& field_map(r.fields@) == match value {
            Some(SyncValue::Json(text)) => field_map(entity.fields@).insert(name, text@),
            Some(SyncValue::Entity(fields)) => field_map(entity.fields@).insert(name, object_text(fields@)),
            None => field_map(entity.fields@).remove(name),
        }
    }
}

fn update_field(entity: &SyncEntity, name: &str, value: &Option<SyncValue>) -> (r: SyncEntity)
    requires
        entity.wf(),
    ensures
        is_updated(r, *entity, name@, *value),
{
    let mut updated = entity.clone();
    if str_equals(name, "__entity__") {
        match value {
            Some(SyncValue::Entity(fields)) => {
                updated.fields = normalized_fields(fields);
                updated.deleted = false;
            },
            Some(SyncValue::Json(_)) => {},
            None => {
                updated.deleted = true;
            },
        }
    } else {
        match value {
            Some(SyncValue::Json(text)) => {
                set_field(&mut updated.fields, name, Some(text.clone()));
            },
            Some(SyncValue::Entity(fields)) => {
                let text = object_json_text(fields);
                set_field(&mut updated.fields, name, Some(text));
            },
            None => {
                set_field(&mut updated.fields, name, None);
            },
        }
    }
    updated
}

/// The string of the field `name` with the copy suffix, unless it already
/// ends with it.
pub open spec fn suffix_field(m: Map<Seq<char>, Seq<char>>, name: Seq<char>) -> Map<Seq<char>, Seq<char>> {
    let s = json_string_value(m[name])->Some_0;
    if ends_with(s, CONFLICT_COPY_SUFFIX@) {
        m
    } else {
        m.insert(name, json_string_text(s + CONFLICT_COPY_SUFFIX@))
    }
}

pub open spec fn holds_string(m: Map<Seq<char>, Seq<char>>, name: Seq<char>) -> bool {
    m.contains_key(name) && json_string_value(m[name]) is Some
}

/// The fields of a conflict copy: the suffix goes to the title if it is a
/// string, else to the name if that is one.
pub open spec fn suffixed_fields(m: Map<Seq<char>, Seq<char>>) -> Map<Seq<char>, Seq<char>> {
    if holds_string(m, "title"@) {
        suffix_field(m, "title"@)
    } else if holds_string(m, "name"@) {
        suffix_field(m, "name"@)
    } else {
        m
    }
}

pub(crate) fn text_ends_with(s: &str, suffix: &str) -> (r: bool)
    ensures
        r == ends_with(s@, suffix@),
{
    let n = s.unicode_len();
    let m = suffix.unicode_len();
    if n < m {
        return false;
    }
    let start = n - m;
    let mut k: usize = 0;
    while k < m
        invariant
            n == s@.len(),
            m == suffix@.len(),
            start == n - m,
            k <= m,
            forall|j: int| 0 <= j < k ==> s@[start + j] == suffix@[j],
        decreases m - k,
    {
        if s.get_char(start + k) != suffix.get_char(k) {
            proof {
                assert(s@.subrange(start as int, n as int)[k as int] != suffix@[k as int]);
            }
            return false;
        }
        k = k + 1;
    }
    proof {
        assert(s@.subrange(start as int, n as int) =~= suffix@);
    }
    true
}

fn try_suffix(entity: &mut SyncEntity, name: &str) -> (done: bool)
    requires
        old(entity).wf(),
    ensures
        final(entity).wf(),
        final(entity).id == old(entity).id,
        final(entity).kind == old(entity).kind,
        final(entity).deleted == old(entity).deleted,
        done == holds_string(field_map(old(entity).fields@), name@),
        done ==> field_map(final(entity).fields@) == suffix_field(field_map(old(entity).fields@), name@),
        done ==> holds_string(field_map(final(entity).fields@), name@) && suffix_field(
            field_map(final(entity).fields@),
            name@,
        ) == field_map(final(entity).fields@),
        !done ==> field_map(final(entity).fields@) == field_map(old(entity).fields@),
{
    match find_field(&entity.fields, name) {
        Some(i) => {
            match decode_json_string(entity.fields[i].value.as_str()) {
                Some(s) => {
                    if !text_ends_with(s.as_str(), CONFLICT_COPY_SUFFIX) {
                        let mut value = s;
                        value.append(CONFLICT_COPY_SUFFIX);
                        let text = encode_json_string(value.as_str());
                        set_field(&mut entity.fields, name, Some(text));
                        proof {
                            let suffix = CONFLICT_COPY_SUFFIX@;
                            let t = value@;
                            assert(t.subrange(t.len() - suffix.len(), t.len() as int) =~= suffix);
                            let m = field_map(entity.fields@);
                            assert(m[name@] == text@);
                            assert(suffix_field(m, name@) =~= m);
                        }
                    } else {
                        proof {
                            let m = field_map(entity.fields@);
                            assert(suffix_field(m, name@) =~= m);
                        }
                    }
                    true
                },
                None => false,
            }
        },
        None => false,
    }
}

fn append_conflict_copy_suffix(entity: &mut SyncEntity)
    requires
        old(entity).wf(),
    ensures
        final(entity).wf(),
        final(entity).id == old(entity).id,
        final(entity).kind == old(entity).kind,
        final(entity).deleted == old(entity).deleted,
        field_map(final(entity).fields@) == suffixed_fields(field_map(old(entity).fields@)),
        suffixed_fields(field_map(final(entity).fields@)) == field_map(final(entity).fields@),
{
    proof {
        reveal_strlit("title");
        reveal_strlit("name");
        assert("title"@.len() == 5 && "name"@.len() == 4);
        assert("title"@ != "name"@);
    }
    if try_suffix(entity, "title") {
        return;
    }
    try_suffix(entity, "name");
}

/// `c` is the second copy of a conflict: the entity with the remote value,
/// under the identifier `copy_id`, with that identifier as its `id` field
/// and the copy suffix.
pub open spec fn is_conflict_copy(c: SyncEntity, entity: SyncEntity, conflict: SyncFieldConflict, copy_id: u128) -> bool {
    exists|u: SyncEntity|
        {
            &&& #[trigger] is_updated(u, entity, conflict.field_name@, conflict.remote_value)
            &&& c.id == copy_id
            &&& c.kind == entity.kind
            &&& c.deleted == u.deleted
            &&& c.wf()
            &&& field_map(c.fields@) == suffixed_fields(
                field_map(u.fields@).insert("id"@, json_string_text(hyphenated(copy_id))),
            )
        }
}

/// The entities that a decision on a conflict gives.
pub open spec fn decision_result(
    r: Seq<SyncEntity>,
    entity: SyncEntity,
    conflict: SyncFieldConflict,
    decision: MergeDecision,
    copy_id: u128,
) -> bool {
    let name = conflict.field_name@;
    match decision {
        MergeDecision::KeepLocal => r.len() == 1 && is_updated(r[0], entity, name, conflict.local_value),
        MergeDecision::AcceptRemote => r.len() == 1 && is_updated(r[0], entity, name, conflict.remote_value),
        MergeDecision::CreateConflictCopy => {
            &&& r.len() >= 1
            &&& is_updated(r[0], entity, name, conflict.local_value)
            &&& if conflict.remote_value is None {
                r.len() == 1
            } else {
                r.len() == 2 && is_conflict_copy(r[1], entity, conflict, copy_id)
            }
        },
    }
}

/// Applies a decision to the entity of a conflict; a conflict copy takes
/// `copy_id` as its identifier.
pub fn apply_decision_with_id(
    entity: &SyncEntity,
    conflict: &SyncFieldConflict,
    decision: MergeDecision,
    copy_id: u128,
) -> (r: Vec<SyncEntity>)
    requires
        entity.wf(),
    ensures
        decision_result(r@, *entity, *conflict, decision, copy_id),
{
    let name = conflict.field_name.as_str();
    match decision {
        MergeDecision::KeepLocal => vec![update_field(entity, name, &conflict.local_value)],
        MergeDecision::AcceptRemote => vec![update_field(entity, name, &conflict.remote_value)],
        MergeDecision::CreateConflictCopy => {
            let local_copy = update_field(entity, name, &conflict.local_value);
            if conflict.remote_value.is_none() {
                return vec![local_copy];
            }
            let remote = update_field(entity, name, &conflict.remote_value);
            let ghost u = remote;
            let mut remote_copy = remote;
            remote_copy.id = copy_id;
            let id_value = encode_json_string(id_text(copy_id).as_str());
            set_field(&mut remote_copy.fields, "id", Some(id_value));
            append_conflict_copy_suffix(&mut remote_copy);
            proof {
                reveal_strlit("id");
                assert(is_updated(u, *entity, conflict.field_name@, conflict.remote_value));
            }
            vec![local_copy, remote_copy]
        },
    }
}

/// Applies a decision to the entity of a conflict; a conflict copy gets a
/// fresh random identifier.
pub fn apply_decision(entity: &SyncEntity, conflict: &SyncFieldConflict, decision: MergeDecision) -> (r: Vec<
    SyncEntity,
>)
    requires
        entity.wf(),
    ensures
        exists|copy_id: u128| decision_result(r@, *entity, *conflict, decision, copy_id),
{
    let copy_id = crate::ids::new_id();
    apply_decision_with_id(entity, conflict, decision, copy_id)
}

} // verus!
