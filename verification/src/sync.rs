//! The synchronisation model: entities of a snapshot, their fields, and the
//! configuration and state of synchronisation.
use vstd::prelude::*;

use crate::calendar::UtcDateTime;
use crate::text::{
    lemma_text_lt_asymmetric, lemma_text_lt_irreflexive, lemma_text_lt_total,
    lemma_text_lt_transitive, text_less, text_lt,
};

verus! {

pub const SYNC_SNAPSHOT_FORMAT_VERSION: u16 = 1;

/// The kind of a synchronised entity; kinds are ordered as declared.
#[derive(Clone, Copy, Debug, PartialEq, Eq, Structural, Hash, PartialOrd, Ord)]
pub enum SyncEntityKind {
    Project,
    Tag,
    Task,
}

/// One field of an entity: its name and its value, written as JSON text.
#[derive(Debug)]
pub struct SyncField {
    pub name: String,
    pub value: String,
}

impl Clone for SyncField {
    fn clone(&self) -> (r: Self)
        ensures
            r == *self,
    {
        SyncField { name: self.name.clone(), value: self.value.clone() }
    }
}

/// The names of the fields increase strictly, so each occurs once.
pub open spec fn fields_sorted(fields: Seq<SyncField>) -> bool {
    forall|i: int, j: int| 0 <= i < j < fields.len() ==> text_lt(fields[i].name@, fields[j].name@)
}

/// An index of a field with a given name.
pub open spec fn field_index(fields: Seq<SyncField>, name: Seq<char>) -> int {
    choose|i: int| 0 <= i < fields.len() && fields[i].name@ == name
}

/// The fields as a map from name to value.
pub open spec fn field_map(fields: Seq<SyncField>) -> Map<Seq<char>, Seq<char>> {
    Map::new(
        |name: Seq<char>| exists|i: int| 0 <= i < fields.len() && fields[i].name@ == name,
        |name: Seq<char>| fields[field_index(fields, name)].value@,
    )
}

/// In sorted fields a name is found at one index only.
pub proof fn lemma_field_map_at(fields: Seq<SyncField>, i: int)
    requires
        fields_sorted(fields),
        0 <= i < fields.len(),
    ensures
        field_map(fields).contains_key(fields[i].name@),
        field_map(fields)[fields[i].name@] == fields[i].value@,
{
    let name = fields[i].name@;
    assert(exists|k: int| 0 <= k < fields.len() && fields[k].name@ == name);
    let j = field_index(fields, name);
    assert(field_map(fields).contains_key(name));
    assert(field_map(fields)[name] == fields[j].value@);
    if j != i {
        lemma_text_lt_irreflexive(name);
        if j < i {
            assert(text_lt(fields[j].name@, fields[i].name@));
        } else {
            assert(text_lt(fields[i].name@, fields[j].name@));
        }
    }
}

/// A synchronised entity: its identifier, kind, fields and deletion mark.
#[derive(Debug)]
pub struct SyncEntity {
    pub id: u128,
    pub kind: SyncEntityKind,
    pub fields: Vec<SyncField>,
    pub deleted: bool,
}

pub fn clone_fields(fields: &Vec<SyncField>) -> (r: Vec<SyncField>)
    ensures
        r@ == fields@,
{
    let mut out: Vec<SyncField> = Vec::new();
    let mut i: usize = 0;
    while i < fields.len()
        invariant
            i <= fields@.len(),
            out@ == fields@.subrange(0, i as int),
        decreases fields@.len() - i,
    {
        out.push(fields[i].clone());
        proof {
            assert(out@ =~= fields@.subrange(0, i + 1));
        }
        i = i + 1;
    }
    proof {
        assert(out@ =~= fields@);
    }
    out
}

impl Clone for SyncEntity {
    fn clone(&self) -> (r: Self)
        ensures
            r.id == self.id,
            r.kind == self.kind,
            r.fields@ == self.fields@,
            r.deleted == self.deleted,
    {
        SyncEntity {
            id: self.id,
            kind: self.kind,
            fields: clone_fields(&self.fields),
            deleted: self.deleted,
        }
    }
}

impl SyncEntity {
    pub open spec fn wf(self) -> bool {
        fields_sorted(self.fields@)
    }

    /// An entity that is not deleted, with the given fields; a name given
    /// twice keeps its last value.
    pub fn new(id: u128, kind: SyncEntityKind, fields: Vec<SyncField>) -> (r: Self)
        ensures
            r.id == id,
            r.kind == kind,
            !r.deleted,
            r.wf(),
            field_map(r.fields@) == fields_with_last_values(fields@),
    {
        SyncEntity { id, kind, fields: normalized_fields(&fields), deleted: false }
    }
}

/// The fields sorted by name, a name given twice keeping its last value.
pub fn normalized_fields(fields: &Vec<SyncField>) -> (r: Vec<SyncField>)
    ensures
        fields_sorted(r@),
        field_map(r@) == fields_with_last_values(fields@),
{
    let mut sorted: Vec<SyncField> = Vec::new();
    let mut i: usize = 0;
    proof {
        assert(field_map(sorted@) =~= fields_with_last_values(fields@.subrange(0, 0)));
    }
    while i < fields.len()
        invariant
            i <= fields@.len(),
            fields_sorted(sorted@),
            field_map(sorted@) == fields_with_last_values(fields@.subrange(0, i as int)),
        decreases fields@.len() - i,
    {
        let field = fields[i].clone();
        proof {
            assert(fields@.subrange(0, i + 1).drop_last() =~= fields@.subrange(0, i as int));
        }
        set_field(&mut sorted, field.name.as_str(), Some(field.value));
        i = i + 1;
    }
    proof {
        assert(fields@.subrange(0, fields@.len() as int) =~= fields@);
    }
    sorted
}

/// The map of a list of fields in which a later field of a name overrides an earlier one.
pub open spec fn fields_with_last_values(fields: Seq<SyncField>) -> Map<Seq<char>, Seq<char>>
    decreases fields.len(),
{
    if fields.len() == 0 {
        Map::empty()
    } else {
        fields_with_last_values(fields.drop_last()).insert(fields.last().name@, fields.last().value@)
    }
}

/// The index of the field with a given name in sorted fields.
pub fn find_field(fields: &Vec<SyncField>, name: &str) -> (r: Option<usize>)
    requires
        fields_sorted(fields@),
    ensures
        match r {
            Some(i) => i < fields@.len() && fields@[i as int].name@ == name@ && field_map(
                fields@,
            ).contains_key(name@) && field_map(fields@)[name@] == fields@[i as int].value@,
            None => !field_map(fields@).contains_key(name@),
        },
{
    let mut i: usize = 0;
    while i < fields.len()
        invariant
            i <= fields@.len(),
            fields_sorted(fields@),
            forall|k: int| 0 <= k < i ==> fields@[k].name@ != name@,
        decreases fields@.len() - i,
    {
        if crate::recurrence::str_equals(fields[i].name.as_str(), name) {
            proof {
                lemma_field_map_at(fields@, i as int);
            }
            return Some(i);
        }
        i = i + 1;
    }
    None
}

/// The value of the field with a given name.
pub fn field_map_value(fields: &Vec<SyncField>, name: &str) -> (r: Option<String>)
    requires
        fields_sorted(fields@),
    ensures
        match r {
            Some(v) => field_map(fields@).contains_key(name@) && field_map(fields@)[name@] == v@,
            None => !field_map(fields@).contains_key(name@),
        },
{
    match find_field(fields, name) {
        Some(i) => Some(fields[i].value.clone()),
        None => None,
    }
}

/// Sorted fields with the field of `name` replaced by `middle` (empty, or
/// one field named `name`) stay sorted and map as expected.
proof fn lemma_splice_fields(
    before: Seq<SyncField>,
    p: int,
    skip: int,
    middle: Seq<SyncField>,
    name: Seq<char>,
)
    requires
        fields_sorted(before),
        0 <= p <= skip <= before.len(),
        skip <= p + 1,
        skip == p + 1 ==> before[p].name@ == name,
        forall|k: int| 0 <= k < p ==> text_lt(before[k].name@, name),
        forall|k: int| skip <= k < before.len() ==> text_lt(name, before[k].name@),
        middle.len() <= 1,
        middle.len() == 1 ==> middle[0].name@ == name,
    ensures
        fields_sorted(before.subrange(0, p) + middle + before.subrange(skip, before.len() as int)),
        field_map(before.subrange(0, p) + middle + before.subrange(skip, before.len() as int)) == if middle.len()
            == 1 {
            field_map(before).insert(name, middle[0].value@)
        } else {
            field_map(before).remove(name)
        },
{
    let out = before.subrange(0, p) + middle + before.subrange(skip, before.len() as int);
    let m = middle.len() as int;
    assert forall|i: int, j: int| 0 <= i < j < out.len() implies text_lt(out[i].name@, out[j].name@) by {
        if j < p {
        } else if i < p && j < p + m {
            assert(out[j].name@ == name);
        } else if i < p {
            assert(out[j] == before[j - p - m + skip]);
            lemma_text_lt_transitive(before[i].name@, name, out[j].name@);
        } else if i < p + m {
            assert(out[i].name@ == name);
            assert(out[j] == before[j - p - m + skip]);
        } else {
            assert(out[i] == before[i - p - m + skip]);
            assert(out[j] == before[j - p - m + skip]);
        }
    }
    let expected = if m == 1 {
        field_map(before).insert(name, middle[0].value@)
    } else {
        field_map(before).remove(name)
    };
    assert forall|n: Seq<char>| #[trigger] field_map(out).contains_key(n) <==> expected.contains_key(n) by {
        if field_map(out).contains_key(n) {
            let i = choose|i: int| 0 <= i < out.len() && out[i].name@ == n;
            if i >= p + m {
                assert(out[i] == before[i - p - m + skip]);
                lemma_text_lt_irreflexive(name);
            } else if i < p {
                lemma_text_lt_irreflexive(name);
            }
        }
        if expected.contains_key(n) && n != name {
            let i = choose|i: int| 0 <= i < before.len() && before[i].name@ == n;
            if i < p {
                assert(out[i] == before[i]);
            } else if i >= skip {
                assert(out[i - skip + p + m] == before[i]);
            }
        }
        if expected.contains_key(n) && n == name {
            assert(out[p] == middle[0]);
        }
    }
    assert forall|n: Seq<char>| #[trigger] field_map(out).contains_key(n) implies field_map(out)[n]
        == expected[n] by {
        let i = choose|i: int| 0 <= i < out.len() && out[i].name@ == n;
        lemma_field_map_at(out, i);
        if i < p {
            assert(out[i] == before[i]);
            lemma_field_map_at(before, i);
            lemma_text_lt_irreflexive(name);
        } else if i >= p + m {
            let k = i - p - m + skip;
            assert(out[i] == before[k]);
            lemma_field_map_at(before, k);
            lemma_text_lt_irreflexive(name);
        } else {
            assert(out[i] == middle[0]);
        }
    }
    assert(field_map(out) =~= expected);
}

/// Sets (`Some`) or removes (`None`) the field of a name, keeping the fields sorted.
pub fn set_field(fields: &mut Vec<SyncField>, name: &str, value: Option<String>)
    requires
        fields_sorted(old(fields)@),
    ensures
        fields_sorted(final(fields)@),
        field_map(final(fields)@) == match value {
            Some(v) => field_map(old(fields)@).insert(name@, v@),
            None => field_map(old(fields)@).remove(name@),
        },
{
    let ghost before = fields@;
    let n = fields.len();
    let mut out: Vec<SyncField> = Vec::new();
    let mut p: usize = 0;
    while p < n && text_less(fields[p].name.as_str(), name)
        invariant
            n == before.len(),
            fields@ == before,
            p <= n,
            out@ == before.subrange(0, p as int),
            forall|k: int| 0 <= k < p ==> text_lt(before[k].name@, name@),
        decreases n - p,
    {
        out.push(fields[p].clone());
        proof {
            assert(out@ =~= before.subrange(0, p + 1));
        }
        p = p + 1;
    }
    let mut skip = p;
    if p < n && crate::recurrence::str_equals(fields[p].name.as_str(), name) {
        skip = p + 1;
    }
    proof {
        assert forall|k: int| skip <= k < before.len() implies text_lt(name@, before[k].name@) by {
            lemma_text_lt_total(name@, before[p as int].name@);
            if k > p {
                if before[p as int].name@ != name@ {
                    lemma_text_lt_transitive(name@, before[p as int].name@, before[k].name@);
                }
            }
        }
    }
    let ghost prefix = out@;
    match value {
        Some(v) => {
            let field = SyncField { name: name.to_owned(), value: v };
            out.push(field);
        },
        None => {},
    }
    let ghost head = out@;
    let mut j = skip;
    while j < n
        invariant
            n == before.len(),
            fields@ == before,
            skip <= j <= n,
            out@ == head + before.subrange(skip as int, j as int),
        decreases n - j,
    {
        out.push(fields[j].clone());
        proof {
            assert(out@ =~= head + before.subrange(skip as int, j + 1));
        }
        j = j + 1;
    }
    proof {
        let mid: Seq<SyncField> = head.subrange(p as int, head.len() as int);
        assert(head =~= prefix + mid);
        assert(out@ =~= before.subrange(0, p as int) + mid + before.subrange(skip as int, n as int));
        lemma_splice_fields(before, p as int, skip as int, mid, name@);
    }
    *fields = out;
}

} // verus!
