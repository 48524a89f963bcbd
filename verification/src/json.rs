//! JSON values as configuration data holds them, their meaning as
//! mathematical values, equality, and merge patches (RFC 7396).

use vstd::prelude::*;
use crate::assoc::{keys_unique, pairs_map, key_index, lemma_key_index, lemma_pairs_map_push,
    lemma_pairs_map_update, lemma_pairs_map_remove, lemma_pairs_map_len, lemma_pairs_map_domain,
    lemma_pairs_map_lookup};

verus! {

/// A JSON number: a non-negative integer, a negative integer, or a finite
/// double given by its IEEE-754 bits.
#[derive(Debug, Clone, Copy, PartialEq, Eq, Structural)]
pub enum JsonNumber {
    PosInt(u64),
    NegInt(i64),
    Float(u64),
}

/// A JSON value. An object lists its members as key/value pairs.
#[derive(Debug)]
pub enum Json {
    Null,
    Bool(bool),
    Number(JsonNumber),
    String(String),
    Array(Vec<Json>),
    Object(Vec<(String, Json)>),
}

/// The meaning of a JSON value: objects are maps from keys to values, and the
/// two zeros of a double are one number.
pub enum JsonValue {
    Null,
    Bool(bool),
    Number(JsonNumber),
    String(Seq<char>),
    Array(Seq<JsonValue>),
    Object(Map<Seq<char>, JsonValue>),
}

/// Bits of the negative zero double.
pub open spec fn negative_zero_bits() -> u64 {
    0x8000_0000_0000_0000u64
}

/// A number with the negative zero double written as the positive one.
pub open spec fn canonical_number(n: JsonNumber) -> JsonNumber {
    match n {
        JsonNumber::Float(b) => if b == negative_zero_bits() {
            JsonNumber::Float(0)
        } else {
            n
        },
        _ => n,
    }
}

/// The double with these bits is finite.
pub open spec fn finite_bits(b: u64) -> bool {
    (b >> 52u64) & 0x7ffu64 != 0x7ffu64
}

impl Json {
    /// The meaning of this value.
    pub open spec fn view(self) -> JsonValue
        decreases self,
    {
        match self {
            Json::Null => JsonValue::Null,
            Json::Bool(b) => JsonValue::Bool(b),
            Json::Number(n) => JsonValue::Number(canonical_number(n)),
            Json::String(s) => JsonValue::String(s@),
            Json::Array(v) => JsonValue::Array(element_values(v@)),
            Json::Object(v) => JsonValue::Object(pairs_map(member_pairs(v@))),
        }
    }

    /// This value with every number as written (the sign of a zero double
    /// included); objects are still read as maps.
    pub open spec fn raw_value(self) -> JsonValue
        decreases self,
    {
        match self {
            Json::Null => JsonValue::Null,
            Json::Bool(b) => JsonValue::Bool(b),
            Json::Number(n) => JsonValue::Number(n),
            Json::String(s) => JsonValue::String(s@),
            Json::Array(v) => JsonValue::Array(raw_elements(v@)),
            Json::Object(v) => JsonValue::Object(pairs_map(raw_members(v@))),
        }
    }

    /// Keys are unique in every object and every double is finite.
    pub open spec fn wf(self) -> bool
        decreases self,
    {
        match self {
            Json::Number(JsonNumber::Float(b)) => finite_bits(b),
            Json::Array(v) => forall|i: int| 0 <= i < v@.len() ==> (#[trigger] v@[i]).wf(),
            Json::Object(v) => {
                &&& keys_unique(key_pairs(v@))
                &&& forall|i: int| 0 <= i < v@.len() ==> (#[trigger] v@[i]).1.wf()
            },
            _ => true,
        }
    }
}

/// The keys of an object's members (paired with their index, as a map's pairs).
pub open spec fn key_pairs(v: Seq<(String, Json)>) -> Seq<(Seq<char>, int)> {
    Seq::new(v.len(), |i: int| (v[i].0@, i))
}

/// The members of an object, by meaning.
pub open spec fn member_pairs(v: Seq<(String, Json)>) -> Seq<(Seq<char>, JsonValue)>
    decreases v,
{
    Seq::new(
        v.len(),
        |i: int|
            if 0 <= i < v.len() {
                (v[i].0@, v[i].1.view())
            } else {
                (Seq::empty(), JsonValue::Null)
            },
    )
}

/// The elements of an array, by meaning.
pub open spec fn element_values(v: Seq<Json>) -> Seq<JsonValue>
    decreases v,
{
    Seq::new(
        v.len(),
        |i: int|
            if 0 <= i < v.len() {
                v[i].view()
            } else {
                JsonValue::Null
            },
    )
}

/// The members of an object, with numbers as written.
pub open spec fn raw_members(v: Seq<(String, Json)>) -> Seq<(Seq<char>, JsonValue)>
    decreases v,
{
    Seq::new(
        v.len(),
        |i: int|
            if 0 <= i < v.len() {
                (v[i].0@, v[i].1.raw_value())
            } else {
                (Seq::empty(), JsonValue::Null)
            },
    )
}

/// The elements of an array, with numbers as written.
pub open spec fn raw_elements(v: Seq<Json>) -> Seq<JsonValue>
    decreases v,
{
    Seq::new(
        v.len(),
        |i: int|
            if 0 <= i < v.len() {
                v[i].raw_value()
            } else {
                JsonValue::Null
            },
    )
}

/// An array's value with numbers as written, element by element.
pub proof fn lemma_raw_array(v: Vec<Json>)
    ensures
        Json::Array(v).raw_value() == JsonValue::Array(raw_elements(v@)),
{
    let j = Json::Array(v);
    assert(j->Array_0 == v);
}

/// An object's value with numbers as written, member by member.
pub proof fn lemma_raw_object(v: Vec<(String, Json)>)
    ensures
        Json::Object(v).raw_value() == JsonValue::Object(pairs_map(raw_members(v@))),
{
    let j = Json::Object(v);
    assert(j->Object_0 == v);
}

/// Keys are unique by name exactly when the members' keys are unique.
pub proof fn lemma_raw_member_keys(v: Seq<(String, Json)>)
    ensures
        keys_unique(key_pairs(v)) == keys_unique(raw_members(v)),
{
    if keys_unique(key_pairs(v)) {
        assert forall|i: int, j: int| 0 <= i < j < raw_members(v).len() implies raw_members(v)[i].0
            != raw_members(v)[j].0 by {
            assert(key_pairs(v)[i].0 != key_pairs(v)[j].0);
        }
    }
    if keys_unique(raw_members(v)) {
        assert forall|i: int, j: int| 0 <= i < j < key_pairs(v).len() implies key_pairs(v)[i].0
            != key_pairs(v)[j].0 by {
            assert(raw_members(v)[i].0 != raw_members(v)[j].0);
        }
    }
}

/// The well-formedness of an array, member by member.
pub proof fn lemma_wf_array(v: Vec<Json>)
    ensures
        Json::Array(v).wf() == (forall|i: int| 0 <= i < v@.len() ==> (#[trigger] v@[i]).wf()),
        Json::Array(v).view() == JsonValue::Array(element_values(v@)),
{
    let j = Json::Array(v);
    assert(j->Array_0 == v);
}

/// The well-formedness of an object, member by member.
pub proof fn lemma_wf_object(v: Vec<(String, Json)>)
    ensures
        Json::Object(v).wf() == (keys_unique(key_pairs(v@)) && forall|i: int|
            0 <= i < v@.len() ==> (#[trigger] v@[i]).1.wf()),
        Json::Object(v).view() == JsonValue::Object(pairs_map(member_pairs(v@))),
{
    let j = Json::Object(v);
    assert(j->Object_0 == v);
}

/// Keys are unique by name exactly when the members' keys are unique.
pub proof fn lemma_member_keys(v: Seq<(String, Json)>)
    ensures
        keys_unique(key_pairs(v)) == keys_unique(member_pairs(v)),
{
    if keys_unique(key_pairs(v)) {
        assert forall|i: int, j: int| 0 <= i < j < member_pairs(v).len() implies member_pairs(v)[i].0
            != member_pairs(v)[j].0 by {
            assert(key_pairs(v)[i].0 != key_pairs(v)[j].0);
        }
    }
    if keys_unique(member_pairs(v)) {
        assert forall|i: int, j: int| 0 <= i < j < key_pairs(v).len() implies key_pairs(v)[i].0
            != key_pairs(v)[j].0 by {
            assert(member_pairs(v)[i].0 != member_pairs(v)[j].0);
        }
    }
}

/// The members of a target of a merge patch: an object's members, and none
/// for any other value.
pub open spec fn members_of(v: JsonValue) -> Map<Seq<char>, JsonValue> {
    match v {
        JsonValue::Object(m) => m,
        _ => Map::empty(),
    }
}

/// The value at key `k`, or null where there is none.
pub open spec fn member_or_null(m: Map<Seq<char>, JsonValue>, k: Seq<char>) -> JsonValue {
    if m.contains_key(k) {
        m[k]
    } else {
        JsonValue::Null
    }
}

/// The result of applying the merge patch `patch` to `target` (RFC 7396): a
/// patch that is not an object replaces the target; an object patch removes
/// the members it sets to null and merges each other member into the target's
/// member of the same key (into null where the target has none), keeping the
/// target's other members.
pub open spec fn merge_patch(target: JsonValue, patch: JsonValue) -> JsonValue
    decreases patch,
{
    match patch {
        JsonValue::Object(pm) => {
            let tm = members_of(target);
            JsonValue::Object(
                Map::new(
                    |k: Seq<char>|
                        (tm.contains_key(k) && !pm.contains_key(k)) || (pm.contains_key(k)
                            && pm[k] != JsonValue::Null),
                    |k: Seq<char>|
                        if pm.contains_key(k) {
                            merge_patch(member_or_null(tm, k), pm[k])
                        } else {
                            tm[k]
                        },
                ),
            )
        },
        _ => patch,
    }
}

/// The members after an object patch with members `pm` is applied to members `tm`.
pub open spec fn merged_members(
    tm: Map<Seq<char>, JsonValue>,
    pm: Map<Seq<char>, JsonValue>,
) -> Map<Seq<char>, JsonValue> {
    Map::new(
        |k: Seq<char>|
            (tm.contains_key(k) && !pm.contains_key(k)) || (pm.contains_key(k) && pm[k]
                != JsonValue::Null),
        |k: Seq<char>|
            if pm.contains_key(k) {
                merge_patch(member_or_null(tm, k), pm[k])
            } else {
                tm[k]
            },
    )
}

/// One member of a patch applied to the members `m`.
pub open spec fn apply_member(m: Map<Seq<char>, JsonValue>, member: (Seq<char>, JsonValue)) -> Map<
    Seq<char>,
    JsonValue,
> {
    if member.1 == JsonValue::Null {
        m.remove(member.0)
    } else {
        m.insert(member.0, merge_patch(member_or_null(m, member.0), member.1))
    }
}

/// The members of a patch applied one after the other.
pub open spec fn apply_members(m: Map<Seq<char>, JsonValue>, s: Seq<(Seq<char>, JsonValue)>) -> Map<
    Seq<char>,
    JsonValue,
>
    decreases s.len(),
{
    if s.len() == 0 {
        m
    } else {
        apply_member(apply_members(m, s.drop_last()), s.last())
    }
}

proof fn lemma_apply_members(tm: Map<Seq<char>, JsonValue>, s: Seq<(Seq<char>, JsonValue)>)
    requires
        keys_unique(s),
    ensures
        apply_members(tm, s) == merged_members(tm, pairs_map(s)),
    decreases s.len(),
{
    if s.len() == 0 {
        assert(merged_members(tm, pairs_map(s)) =~= tm);
    } else {
        let s0 = s.drop_last();
        let (k, v) = s.last();
        assert(keys_unique(s0));
        lemma_apply_members(tm, s0);
        lemma_pairs_map_domain(s0, k);
        assert forall|j: int| 0 <= j < s0.len() implies s0[j].0 != k by {
            assert(s[j].0 != s[s.len() - 1].0);
        }
        let pm0 = pairs_map(s0);
        let pm = pairs_map(s);
        assert(pm == pm0.insert(k, v));
        let before = merged_members(tm, pm0);
        assert(apply_members(tm, s) == apply_member(before, (k, v)));
        assert(member_or_null(before, k) == member_or_null(tm, k));
        assert(apply_member(before, (k, v)) =~= merged_members(tm, pm));
    }
}

proof fn lemma_merge_object(target: JsonValue, pm: Map<Seq<char>, JsonValue>)
    ensures
        merge_patch(target, JsonValue::Object(pm)) == JsonValue::Object(
            merged_members(members_of(target), pm),
        ),
{
    assert(merged_members(members_of(target), pm) =~= match merge_patch(
        target,
        JsonValue::Object(pm),
    ) {
        JsonValue::Object(m) => m,
        _ => Map::empty(),
    });
}

/// Position of the member with key `key`.
fn find_member(entries: &Vec<(String, Json)>, key: &String) -> (r: Option<usize>)
    requires
        keys_unique(key_pairs(entries@)),
    ensures
        r matches Some(i) ==> i < entries@.len() && entries@[i as int].0@ == key@,
        r is None ==> forall|j: int| 0 <= j < entries@.len() ==> entries@[j].0@ != key@,
{
    let mut i: usize = 0;
    while i < entries.len()
        invariant
            i <= entries@.len(),
            forall|j: int| 0 <= j < i ==> entries@[j].0@ != key@,
        decreases entries@.len() - i,
    {
        if entries[i].0 == *key {
            return Some(i);
        }
        i = i + 1;
    }
    None
}

/// Whether the members' keys are pairwise different.
fn keys_distinct(v: &Vec<(String, Json)>) -> (b: bool)
    ensures
        b == keys_unique(key_pairs(v@)),
{
    let mut j: usize = 0;
    while j < v.len()
        invariant
            j <= v@.len(),
            forall|a: int, c: int| 0 <= a < c < j ==> v@[a].0@ != v@[c].0@,
        decreases v@.len() - j,
    {
        let mut i: usize = 0;
        while i < j
            invariant
                i <= j < v@.len(),
                forall|a: int| 0 <= a < i ==> v@[a].0@ != v@[j as int].0@,
            decreases j - i,
        {
            if v[i].0 == v[j].0 {
                assert(key_pairs(v@)[i as int].0 == key_pairs(v@)[j as int].0);
                return false;
            }
            i = i + 1;
        }
        j = j + 1;
    }
    assert forall|a: int, c: int| 0 <= a < c < key_pairs(v@).len() implies key_pairs(v@)[a].0
        != key_pairs(v@)[c].0 by {
        assert(v@[a].0@ != v@[c].0@);
    }
    true
}

/// Whether a value is well formed: keys unique in every object, every double finite.
#[verifier::loop_isolation(false)]
pub fn is_well_formed(j: &Json) -> (b: bool)
    ensures
        b == j.wf(),
    decreases j,
{
    match j {
        Json::Number(JsonNumber::Float(bits)) => (*bits >> 52u64) & 0x7ffu64 != 0x7ffu64,
        Json::Array(v) => {
            proof {
                lemma_wf_array(*v);
                assert(*j == Json::Array(*v));
            }
            let mut i: usize = 0;
            while i < v.len()
                invariant
                    i <= v@.len(),
                    forall|k: int| 0 <= k < i ==> (#[trigger] v@[k]).wf(),
                decreases v@.len() - i,
            {
                proof {
                    assert(decreases_to!(j => *v));
                    assert(decreases_to!(*v => v@));
                    assert(decreases_to!(v@ => v@[i as int]));
                }
                if !is_well_formed(&v[i]) {
                    return false;
                }
                i = i + 1;
            }
            true
        },
        Json::Object(v) => {
            proof {
                lemma_wf_object(*v);
                assert(*j == Json::Object(*v));
            }
            if !keys_distinct(v) {
                return false;
            }
            let mut i: usize = 0;
            while i < v.len()
                invariant
                    i <= v@.len(),
                    keys_unique(key_pairs(v@)),
                    forall|k: int| 0 <= k < i ==> (#[trigger] v@[k]).1.wf(),
                decreases v@.len() - i,
            {
                proof {
                    assert(decreases_to!(j => *v));
                    assert(decreases_to!(*v => v@));
                    assert(decreases_to!(v@ => v@[i as int]));
                    assert(decreases_to!(v@[i as int] => v@[i as int].1));
                }
                if !is_well_formed(&v[i].1) {
                    return false;
                }
                i = i + 1;
            }
            true
        },
        _ => true,
    }
}

/// A copy of a value with the same meaning.
#[verifier::loop_isolation(false)]
pub fn duplicate(j: &Json) -> (r: Json)
    ensures
        r.view() == j.view(),
        r.raw_value() == j.raw_value(),
        r.wf() == j.wf(),
    decreases j,
{
    match j {
        Json::Null => Json::Null,
        Json::Bool(b) => Json::Bool(*b),
        Json::Number(n) => Json::Number(*n),
        Json::String(s) => Json::String(s.clone()),
        Json::Array(v) => {
            let mut out: Vec<Json> = Vec::new();
            let mut i: usize = 0;
            while i < v.len()
                invariant
                    i <= v@.len(),
                    out@.len() == i,
                    forall|k: int| 0 <= k < i ==> (#[trigger] out@[k]).view() == v@[k].view() && out@[k].wf()
                        == v@[k].wf() && out@[k].raw_value() == v@[k].raw_value(),
                decreases v@.len() - i,
            {
                proof {
                    assert(decreases_to!(j => *v));
                    assert(decreases_to!(*v => v@));
                    assert(decreases_to!(v@ => v@[i as int]));
                }
                let c = duplicate(&v[i]);
                out.push(c);
                i = i + 1;
            }
            proof {
                lemma_wf_array(out);
                lemma_wf_array(*v);
                assert(*j == Json::Array(*v));
                assert(out@.len() == v@.len());
                assert(element_values(out@).len() == element_values(v@).len());
                assert forall|k: int| 0 <= k < out@.len() implies element_values(out@)[k] == element_values(v@)[k] by {
                    assert(out@[k].view() == v@[k].view());
                }
                assert(element_values(out@) =~= element_values(v@));
                lemma_raw_array(out);
                lemma_raw_array(*v);
                assert forall|k: int| 0 <= k < out@.len() implies raw_elements(out@)[k] == raw_elements(v@)[k] by {
                    assert(out@[k].raw_value() == v@[k].raw_value());
                }
                assert(raw_elements(out@) =~= raw_elements(v@));
                if j.wf() {
                    assert forall|k: int| 0 <= k < out@.len() implies #[trigger] out@[k].wf() by {
                        reveal_with_fuel(Json::wf, 2);
                        assert(v@[k].wf());
                    }
                }
                if Json::Array(out).wf() {
                    assert forall|k: int| 0 <= k < v@.len() implies #[trigger] v@[k].wf() by {
                        assert(out@[k].wf());
                    }
                }
            }
            Json::Array(out)
        },
        Json::Object(v) => {
            let mut out: Vec<(String, Json)> = Vec::new();
            let mut i: usize = 0;
            while i < v.len()
                invariant
                    i <= v@.len(),
                    out@.len() == i,
                    forall|k: int|
                        0 <= k < i ==> (#[trigger] out@[k]).0@ == v@[k].0@ && out@[k].1.view()
                            == v@[k].1.view() && out@[k].1.wf() == v@[k].1.wf()
                            && out@[k].1.raw_value() == v@[k].1.raw_value(),
                decreases v@.len() - i,
            {
                proof {
                    assert(decreases_to!(j => *v));
                    assert(decreases_to!(*v => v@));
                    assert(decreases_to!(v@ => v@[i as int]));
                    assert(decreases_to!(v@[i as int] => v@[i as int].1));
                }
                let c = duplicate(&v[i].1);
                out.push((v[i].0.clone(), c));
                i = i + 1;
            }
            proof {
                lemma_wf_object(out);
                lemma_wf_object(*v);
                assert(member_pairs(out@) =~= member_pairs(v@));
                lemma_raw_object(out);
                lemma_raw_object(*v);
                assert(raw_members(out@) =~= raw_members(v@));
                assert(key_pairs(out@) =~= key_pairs(v@));
                if j.wf() {
                    assert forall|k: int| 0 <= k < out@.len() implies #[trigger] out@[k].1.wf() by {
                        assert(v@[k].1.wf());
                    }
                }
                if Json::Object(out).wf() {
                    assert forall|k: int| 0 <= k < v@.len() implies #[trigger] v@[k].1.wf() by {
                        assert(out@[k].1.wf());
                    }
                }
            }
            Json::Object(out)
        },
    }
}

} // verus!

verus! {

/// The number with the negative zero double written as the positive one.
pub fn canonical(n: JsonNumber) -> (r: JsonNumber)
    ensures
        r == canonical_number(n),
{
    match n {
        JsonNumber::Float(b) => if b == 0x8000_0000_0000_0000u64 {
            JsonNumber::Float(0)
        } else {
            n
        },
        _ => n,
    }
}

/// Whether two values are equal as JSON values: objects are compared as maps,
/// and numbers as `serde_json` compares them.
#[verifier::loop_isolation(false)]
pub fn json_eq(a: &Json, b: &Json) -> (r: bool)
    requires
        a.wf(),
        b.wf(),
    ensures
        r == (a.view() == b.view()),
    decreases a,
{
    match (a, b) {
        (Json::Null, Json::Null) => true,
        (Json::Bool(x), Json::Bool(y)) => *x == *y,
        (Json::Number(x), Json::Number(y)) => canonical(*x) == canonical(*y),
        (Json::String(x), Json::String(y)) => *x == *y,
        (Json::Array(va), Json::Array(vb)) => {
            proof {
                lemma_wf_array(*va);
                lemma_wf_array(*vb);
            }
            if va.len() != vb.len() {
                assert(element_values(va@).len() != element_values(vb@).len());
                return false;
            }
            let mut i: usize = 0;
            while i < va.len()
                invariant
                    i <= va@.len(),
                    va@.len() == vb@.len(),
                    forall|k: int| 0 <= k < i ==> (#[trigger] va@[k]).view() == vb@[k].view(),
                decreases va@.len() - i,
            {
                proof {
                    assert(decreases_to!(a => *va));
                    assert(decreases_to!(*va => va@));
                    assert(decreases_to!(va@ => va@[i as int]));
                }
                if !json_eq(&va[i], &vb[i]) {
                    assert(element_values(va@)[i as int] != element_values(vb@)[i as int]);
                    return false;
                }
                i = i + 1;
            }
            assert(element_values(va@) =~= element_values(vb@));
            true
        },
        (Json::Object(va), Json::Object(vb)) => {
            proof {
                lemma_wf_object(*va);
                lemma_wf_object(*vb);
                lemma_member_keys(va@);
                lemma_member_keys(vb@);
                lemma_pairs_map_len(member_pairs(va@));
                lemma_pairs_map_len(member_pairs(vb@));
            }
            let ghost ma = pairs_map(member_pairs(va@));
            let ghost mb = pairs_map(member_pairs(vb@));
            if va.len() != vb.len() {
                assert(ma.dom().len() != mb.dom().len());
                return false;
            }
            let mut i: usize = 0;
            while i < va.len()
                invariant
                    i <= va@.len(),
                    va@.len() == vb@.len(),
                    forall|k: int|
                        0 <= k < i ==> mb.contains_key((#[trigger] va@[k]).0@) && mb[va@[k].0@]
                            == va@[k].1.view(),
                decreases va@.len() - i,
            {
                proof {
                    lemma_pairs_map_lookup(member_pairs(va@), i as int);
                }
                match find_member(vb, &va[i].0) {
                    None => {
                        proof {
                            lemma_pairs_map_domain(member_pairs(vb@), va@[i as int].0@);
                        }
                        assert(ma.contains_key(va@[i as int].0@));
                        assert(!mb.contains_key(va@[i as int].0@));
                        return false;
                    },
                    Some(j) => {
                        proof {
                            lemma_pairs_map_lookup(member_pairs(vb@), j as int);
                            assert(decreases_to!(a => *va));
                            assert(decreases_to!(*va => va@));
                            assert(decreases_to!(va@ => va@[i as int]));
                            assert(decreases_to!(va@[i as int] => va@[i as int].1));
                        }
                        if !json_eq(&va[i].1, &vb[j].1) {
                            assert(ma[va@[i as int].0@] != mb[va@[i as int].0@]);
                            return false;
                        }
                    },
                }
                i = i + 1;
            }
            proof {
                assert forall|k: Seq<char>| ma.contains_key(k) implies mb.contains_key(k) && ma[k]
                    == mb[k] by {
                    lemma_pairs_map_domain(member_pairs(va@), k);
                    let x = choose|x: int|
                        0 <= x < member_pairs(va@).len() && member_pairs(va@)[x].0 == k;
                    lemma_pairs_map_lookup(member_pairs(va@), x);
                    assert(va@[x].0@ == k);
                }
                assert forall|k: Seq<char>| ma.dom().contains(k) implies mb.dom().contains(k) by {
                    lemma_pairs_map_domain(member_pairs(va@), k);
                    let x = choose|x: int|
                        0 <= x < member_pairs(va@).len() && member_pairs(va@)[x].0 == k;
                    assert(va@[x].0@ == k);
                }
                assert(ma.dom().subset_of(mb.dom()));
                assert(member_pairs(va@).len() == member_pairs(vb@).len());
                vstd::set_lib::lemma_subset_equality(ma.dom(), mb.dom());
                assert(ma =~= mb);
            }
            true
        },
        _ => false,
    }
}

} // verus!

verus! {

/// Applies the merge patch `patch` to `target` (RFC 7396).
#[verifier::loop_isolation(false)]
pub fn merged(target: Json, patch: &Json) -> (r: Json)
    requires
        target.wf(),
        patch.wf(),
    ensures
        r.wf(),
        r.view() == merge_patch(target.view(), patch.view()),
        r.raw_value() == merge_patch(target.raw_value(), patch.raw_value()),
    decreases patch,
{
    match patch {
        Json::Object(pv) => {
            proof {
                lemma_wf_object(*pv);
                lemma_member_keys(pv@);
                lemma_raw_object(*pv);
                lemma_raw_member_keys(pv@);
            }
            let ghost tm = members_of(target.view());
            let ghost pp = member_pairs(pv@);
            let ghost rtm = members_of(target.raw_value());
            let ghost rpp = raw_members(pv@);
            let mut entries: Vec<(String, Json)> = match target {
                Json::Object(e) => {
                    proof {
                        lemma_wf_object(e);
                        lemma_member_keys(e@);
                        lemma_raw_object(e);
                        lemma_raw_member_keys(e@);
                    }
                    e
                },
                _ => {
                    assert(member_pairs(Seq::<(String, Json)>::empty()) =~= Seq::empty());
                    assert(raw_members(Seq::<(String, Json)>::empty()) =~= Seq::empty());
                    assert(pairs_map(Seq::<(Seq<char>, JsonValue)>::empty()) =~= Map::empty());
                    assert(key_pairs(Seq::<(String, Json)>::empty()) =~= Seq::empty());
                    Vec::new()
                },
            };
            assert(pp.take(0) =~= Seq::<(Seq<char>, JsonValue)>::empty());
            assert(rpp.take(0) =~= Seq::<(Seq<char>, JsonValue)>::empty());
            let mut j: usize = 0;
            while j < pv.len()
                invariant
                    j <= pv@.len(),
                    keys_unique(member_pairs(entries@)),
                    keys_unique(key_pairs(entries@)),
                    forall|i: int| 0 <= i < entries@.len() ==> (#[trigger] entries@[i]).1.wf(),
                    pairs_map(member_pairs(entries@)) == apply_members(tm, pp.take(j as int)),
                    keys_unique(raw_members(entries@)),
                    pairs_map(raw_members(entries@)) == apply_members(rtm, rpp.take(j as int)),
                decreases pv@.len() - j,
            {
                let ghost before = member_pairs(entries@);
                let ghost m0 = pairs_map(before);
                let ghost key = pv@[j as int].0@;
                let ghost val = pv@[j as int].1.view();
                assert(pp.take(j + 1).drop_last() =~= pp.take(j as int));
                assert(pp.take(j + 1).last() == (key, val));
                assert(apply_members(tm, pp.take(j + 1)) == apply_member(m0, (key, val)));
                let ghost rbefore = raw_members(entries@);
                let ghost rm0 = pairs_map(rbefore);
                let ghost rval = pv@[j as int].1.raw_value();
                assert(rpp.take(j + 1).drop_last() =~= rpp.take(j as int));
                assert(rpp.take(j + 1).last() == (key, rval));
                assert(apply_members(rtm, rpp.take(j + 1)) == apply_member(rm0, (key, rval)));
                let is_null = match &pv[j].1 {
                    Json::Null => true,
                    _ => false,
                };
                assert(is_null == (val == JsonValue::Null));
                assert(is_null == (rval == JsonValue::Null));
                match find_member(&entries, &pv[j].0) {
                    Some(i) => {
                        proof {
                            lemma_pairs_map_lookup(before, i as int);
                            assert(before[i as int].0 == key);
                            lemma_pairs_map_lookup(rbefore, i as int);
                            assert(rbefore[i as int].0 == key);
                        }
                        let ghost full = entries@;
                        let (k, child) = entries.remove(i);
                        proof {
                            lemma_pairs_map_remove(before, i as int);
                            assert(member_pairs(entries@) =~= before.remove(i as int));
                            lemma_member_keys(entries@);
                            lemma_pairs_map_remove(rbefore, i as int);
                            assert(raw_members(entries@) =~= rbefore.remove(i as int));
                            lemma_raw_member_keys(entries@);
                        }
                        if !is_null {
                            proof {
                                assert(decreases_to!(patch => *pv));
                                assert(decreases_to!(*pv => pv@));
                                assert(decreases_to!(pv@ => pv@[j as int]));
                                assert(decreases_to!(pv@[j as int] => pv@[j as int].1));
                                assert(child.view() == m0[key]);
                                assert(child.raw_value() == rm0[key]);
                            }
                            let new_child = merged(child, &pv[j].1);
                            let ghost removed = entries@;
                            entries.insert(i, (k, new_child));
                            proof {
                                assert(member_pairs(entries@) =~= before.update(
                                    i as int,
                                    (key, new_child.view()),
                                ));
                                lemma_pairs_map_update(before, i as int, new_child.view());
                                lemma_member_keys(entries@);
                                assert(member_or_null(m0, key) == m0[key]);
                                assert(raw_members(entries@) =~= rbefore.update(
                                    i as int,
                                    (key, new_child.raw_value()),
                                ));
                                lemma_pairs_map_update(rbefore, i as int, new_child.raw_value());
                                lemma_raw_member_keys(entries@);
                                assert(member_or_null(rm0, key) == rm0[key]);
                                assert forall|x: int| 0 <= x < entries@.len() implies (#[trigger] entries@[x]).1.wf() by {
                                    if x < i {
                                        assert(entries@[x] == removed[x]);
                                        assert(removed[x] == full[x]);
                                    } else if x > i {
                                        assert(entries@[x] == removed[x - 1]);
                                        assert(removed[x - 1] == full[x]);
                                    }
                                }
                            }
                        } else {
                            proof {
                                assert forall|x: int| 0 <= x < entries@.len() implies (#[trigger] entries@[x]).1.wf() by {
                                    if x < i {
                                        assert(entries@[x] == full[x]);
                                    } else {
                                        assert(entries@[x] == full[x + 1]);
                                    }
                                }
                            }
                        }
                    },
                    None => {
                        proof {
                            lemma_pairs_map_domain(before, key);
                            assert forall|x: int| 0 <= x < before.len() implies before[x].0 != key by {
                                assert(entries@[x].0@ != key);
                            }
                            lemma_pairs_map_domain(rbefore, key);
                            assert forall|x: int| 0 <= x < rbefore.len() implies rbefore[x].0 != key by {
                                assert(entries@[x].0@ != key);
                            }
                        }
                        if is_null {
                            assert(m0.remove(key) =~= m0);
                            assert(rm0.remove(key) =~= rm0);
                        } else {
                            proof {
                                assert(decreases_to!(patch => *pv));
                                assert(decreases_to!(*pv => pv@));
                                assert(decreases_to!(pv@ => pv@[j as int]));
                                assert(decreases_to!(pv@[j as int] => pv@[j as int].1));
                            }
                            let new_child = merged(Json::Null, &pv[j].1);
                            let ghost prior = entries@;
                            entries.push((pv[j].0.clone(), new_child));
                            proof {
                                assert(member_pairs(entries@) =~= before.push((key, new_child.view())));
                                lemma_pairs_map_push(before, key, new_child.view());
                                lemma_member_keys(entries@);
                                assert(raw_members(entries@) =~= rbefore.push((key, new_child.raw_value())));
                                lemma_pairs_map_push(rbefore, key, new_child.raw_value());
                                lemma_raw_member_keys(entries@);
                                assert forall|x: int| 0 <= x < entries@.len() implies (#[trigger] entries@[x]).1.wf() by {
                                    if x < prior.len() {
                                        assert(entries@[x] == prior[x]);
                                    }
                                }
                            }
                        }
                    },
                }
                j = j + 1;
            }
            proof {
                assert(pp.take(pv@.len() as int) =~= pp);
                lemma_apply_members(tm, pp);
                lemma_merge_object(target.view(), pairs_map(pp));
                lemma_wf_object(entries);
                assert(rpp.take(pv@.len() as int) =~= rpp);
                lemma_apply_members(rtm, rpp);
                lemma_merge_object(target.raw_value(), pairs_map(rpp));
                lemma_raw_object(entries);
            }
            Json::Object(entries)
        },
        _ => duplicate(patch),
    }
}

/// Applies the merge patch `patch` to `doc` in place (RFC 7396).
pub fn merge(doc: &mut Json, patch: &Json)
    requires
        old(doc).wf(),
        patch.wf(),
    ensures
        final(doc).wf(),
        final(doc).view() == merge_patch(old(doc).view(), patch.view()),
        final(doc).raw_value() == merge_patch(old(doc).raw_value(), patch.raw_value()),
{
    let mut target = Json::Null;
    std::mem::swap(doc, &mut target);
    *doc = merged(target, patch);
}

} // verus!

verus! {

/// Applying the same merge patch twice gives what applying it once gives.
pub proof fn law_merge_patch_idempotent(target: JsonValue, patch: JsonValue)
    ensures
        merge_patch(merge_patch(target, patch), patch) == merge_patch(target, patch),
    decreases patch,
{
    match patch {
        JsonValue::Object(pm) => {
            let tm = members_of(target);
            lemma_merge_object(target, pm);
            let rm = merged_members(tm, pm);
            lemma_merge_object(JsonValue::Object(rm), pm);
            assert forall|k: Seq<char>| pm.contains_key(k) implies merge_patch(
                merge_patch(member_or_null(tm, k), pm[k]),
                pm[k],
            ) == merge_patch(member_or_null(tm, k), pm[k]) by {
                law_merge_patch_idempotent(member_or_null(tm, k), pm[k]);
            }
            assert(merged_members(rm, pm) =~= rm);
        },
        _ => {},
    }
}

/// A patch that is not an object replaces the target.
pub proof fn law_merge_patch_replaces(target: JsonValue, patch: JsonValue)
    requires
        !(patch is Object),
    ensures
        merge_patch(target, patch) == patch,
{
}

/// An empty object patch keeps the members of an object target.
pub proof fn law_merge_empty_patch(members: Map<Seq<char>, JsonValue>)
    ensures
        merge_patch(JsonValue::Object(members), JsonValue::Object(Map::empty())) == JsonValue::Object(
            members,
        ),
{
    lemma_merge_object(JsonValue::Object(members), Map::empty());
    assert(merged_members(members, Map::empty()) =~= members);
}

/// A member that the patch sets to null is absent afterwards, and a member
/// the patch does not mention keeps its value.
pub proof fn law_merge_patch_members(
    target: Map<Seq<char>, JsonValue>,
    patch: Map<Seq<char>, JsonValue>,
    k: Seq<char>,
)
    ensures
        patch.contains_key(k) && patch[k] == JsonValue::Null ==> !members_of(
            merge_patch(JsonValue::Object(target), JsonValue::Object(patch)),
        ).contains_key(k),
        !patch.contains_key(k) && target.contains_key(k) ==> members_of(
            merge_patch(JsonValue::Object(target), JsonValue::Object(patch)),
        ).contains_key(k) && members_of(
            merge_patch(JsonValue::Object(target), JsonValue::Object(patch)),
        )[k] == target[k],
{
    lemma_merge_object(JsonValue::Object(target), patch);
}

} // verus!
