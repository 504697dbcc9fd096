use super::error::Error;
use vstd::prelude::*;
use vstd::string::{StrSliceExecFns, StringExecFns};

verus! {

/// The mathematical shape of a JSON document: what the contracts of the
/// settings store speak about. Objects are ordered key/value fields.
pub enum SpecJson {
    Null,
    Bool(bool),
    Number(int),
    Text(Seq<char>),
    Array(Seq<SpecJson>),
    Object(Seq<(Seq<char>, SpecJson)>),
}

/// A JSON document held as plain values: null, booleans, integers, text,
/// arrays, and objects as ordered key/value fields. Objects keep insertion
/// order, and setting a key that is already present replaces its value in
/// place.
#[derive(Debug)]
pub enum JsonValue {
    Null,
    Bool(bool),
    Number(i64),
    Text(String),
    Array(Vec<JsonValue>),
    Object(Vec<(String, JsonValue)>),
}

/// The document a value stands for.
pub open spec fn view_json(v: JsonValue) -> SpecJson
    decreases v,
{
    match v {
        JsonValue::Null => SpecJson::Null,
        JsonValue::Bool(b) => SpecJson::Bool(b),
        JsonValue::Number(n) => SpecJson::Number(n as int),
        JsonValue::Text(s) => SpecJson::Text(s@),
        JsonValue::Array(items) => SpecJson::Array(view_items(items@)),
        JsonValue::Object(fields) => SpecJson::Object(view_fields(fields@)),
    }
}

/// The documents a sequence of values stands for, elementwise.
pub open spec fn view_items(items: Seq<JsonValue>) -> Seq<SpecJson>
    decreases items,
{
    if items.len() == 0 {
        Seq::empty()
    } else {
        seq![view_json(items[0])] + view_items(items.drop_first())
    }
}

/// The fields a sequence of key/value pairs stands for, elementwise.
pub open spec fn view_fields(fields: Seq<(String, JsonValue)>) -> Seq<(Seq<char>, SpecJson)>
    decreases fields,
{
    if fields.len() == 0 {
        Seq::empty()
    } else {
        seq![(fields[0].0@, view_json(fields[0].1))] + view_fields(fields.drop_first())
    }
}

impl View for JsonValue {
    type V = SpecJson;

    open spec fn view(&self) -> SpecJson {
        view_json(*self)
    }
}

/// `view_items` maps elementwise.
pub broadcast proof fn lemma_view_items(items: Seq<JsonValue>)
    ensures
        #[trigger] view_items(items).len() == items.len(),
        forall|i: int| 0 <= i < items.len() ==> view_items(items)[i] == view_json(items[i]),
    decreases items,
{
    if items.len() != 0 {
        lemma_view_items(items.drop_first());
    }
}

/// `view_fields` maps elementwise.
pub broadcast proof fn lemma_view_fields(fields: Seq<(String, JsonValue)>)
    ensures
        #[trigger] view_fields(fields).len() == fields.len(),
        forall|i: int|
            0 <= i < fields.len() ==> view_fields(fields)[i] == (
            fields[i].0@,
            view_json(fields[i].1),
            ),
    decreases fields,
{
    if fields.len() != 0 {
        lemma_view_fields(fields.drop_first());
    }
}

/// A deep copy: the copy stands for exactly the same document.
pub fn clone_value(v: &JsonValue) -> (r: JsonValue)
    ensures
        r@ == v@,
    decreases v,
{
    match v {
        JsonValue::Null => JsonValue::Null,
        JsonValue::Bool(b) => JsonValue::Bool(*b),
        JsonValue::Number(n) => JsonValue::Number(*n),
        JsonValue::Text(s) => JsonValue::Text(s.clone()),
        JsonValue::Array(items) => {
            let out = clone_items(items);
            JsonValue::Array(out)
        },
        JsonValue::Object(fields) => {
            let out = clone_fields(fields);
            JsonValue::Object(out)
        },
    }
}

/// A deep copy of array items, elementwise.
pub fn clone_items(items: &Vec<JsonValue>) -> (r: Vec<JsonValue>)
    ensures
        view_items(r@) == view_items(items@),
    decreases items,
{
    let n = items.len();
    let mut out: Vec<JsonValue> = Vec::new();
    let mut j: usize = 0;
    while j < n
        invariant
            n == items@.len(),
            j <= n,
            out@.len() == j,
            forall|i: int| 0 <= i < j ==> view_json(out@[i]) == view_json(items@[i]),
        decreases n - j,
    {
        let c = clone_value(&items[j]);
        out.push(c);
        j += 1;
    }
    proof {
        lemma_view_items(out@);
        lemma_view_items(items@);
        assert(view_items(out@) =~= view_items(items@));
    }
    out
}

/// A deep copy of object fields, keys and values alike.
pub fn clone_fields(fields: &Vec<(String, JsonValue)>) -> (r: Vec<(String, JsonValue)>)
    ensures
        view_fields(r@) == view_fields(fields@),
    decreases fields,
{
    let n = fields.len();
    let mut out: Vec<(String, JsonValue)> = Vec::new();
    let mut j: usize = 0;
    while j < n
        invariant
            n == fields@.len(),
            j <= n,
            out@.len() == j,
            forall|i: int|
                0 <= i < j ==> out@[i].0@ == fields@[i].0@ && view_json(out@[i].1) == view_json(
                    fields@[i].1,
                ),
        decreases n - j,
    {
        let k = fields[j].0.clone();
        let c = clone_value(&fields[j].1);
        out.push((k, c));
        j += 1;
    }
    proof {
        lemma_view_fields(out@);
        lemma_view_fields(fields@);
        assert(view_fields(out@) =~= view_fields(fields@));
    }
    out
}

/// Whether two values stand for the same document.
pub fn values_equal(a: &JsonValue, b: &JsonValue) -> (r: bool)
    ensures
        r == (a@ == b@),
    decreases a,
{
    proof {
        lemma_view_variant(*a);
        lemma_view_variant(*b);
    }
    match a {
        JsonValue::Null => match b {
            JsonValue::Null => true,
            _ => false,
        },
        JsonValue::Bool(x) => match b {
            JsonValue::Bool(y) => *x == *y,
            _ => false,
        },
        JsonValue::Number(x) => match b {
            JsonValue::Number(y) => *x == *y,
            _ => false,
        },
        JsonValue::Text(x) => match b {
            JsonValue::Text(y) => x.eq(y),
            _ => false,
        },
        JsonValue::Array(x) => match b {
            JsonValue::Array(y) => items_equal(x, y),
            _ => false,
        },
        JsonValue::Object(x) => match b {
            JsonValue::Object(y) => fields_equal(x, y),
            _ => false,
        },
    }
}

/// A value and the document it stands for are of the same kind.
pub proof fn lemma_view_variant(v: JsonValue)
    ensures
        (v is Null <==> view_json(v) is Null),
        (v is Bool <==> view_json(v) is Bool),
        (v is Number <==> view_json(v) is Number),
        (v is Text <==> view_json(v) is Text),
        (v is Array <==> view_json(v) is Array),
        (v is Object <==> view_json(v) is Object),
{
}

/// Whether two item sequences stand for the same documents, elementwise.
pub fn items_equal(x: &Vec<JsonValue>, y: &Vec<JsonValue>) -> (r: bool)
    ensures
        r == (view_items(x@) == view_items(y@)),
    decreases x,
{
    proof {
        lemma_view_items(x@);
        lemma_view_items(y@);
    }
    let n = x.len();
    if y.len() != n {
        return false;
    }
    let mut j: usize = 0;
    while j < n
        invariant
            n == x@.len(),
            n == y@.len(),
            j <= n,
            view_items(x@).len() == n,
            view_items(y@).len() == n,
            forall|i: int| 0 <= i < n ==> view_items(x@)[i] == view_json(x@[i]),
            forall|i: int| 0 <= i < n ==> view_items(y@)[i] == view_json(y@[i]),
            forall|i: int| 0 <= i < j ==> view_json(x@[i]) == view_json(y@[i]),
        decreases n - j,
    {
        if !values_equal(&x[j], &y[j]) {
            proof {
                assert(view_items(x@)[j as int] != view_items(y@)[j as int]);
            }
            return false;
        }
        j += 1;
    }
    proof {
        assert(view_items(x@) =~= view_items(y@));
    }
    true
}

/// Whether two field sequences stand for the same fields, keys and values
/// alike, elementwise.
pub fn fields_equal(x: &Vec<(String, JsonValue)>, y: &Vec<(String, JsonValue)>) -> (r: bool)
    ensures
        r == (view_fields(x@) == view_fields(y@)),
    decreases x,
{
    proof {
        lemma_view_fields(x@);
        lemma_view_fields(y@);
    }
    let n = x.len();
    if y.len() != n {
        return false;
    }
    let mut j: usize = 0;
    while j < n
        invariant
            n == x@.len(),
            n == y@.len(),
            j <= n,
            view_fields(x@).len() == n,
            view_fields(y@).len() == n,
            forall|i: int|
                0 <= i < n ==> view_fields(x@)[i] == (x@[i].0@, view_json(x@[i].1)),
            forall|i: int|
                0 <= i < n ==> view_fields(y@)[i] == (y@[i].0@, view_json(y@[i].1)),
            forall|i: int|
                0 <= i < j ==> x@[i].0@ == y@[i].0@ && view_json(x@[i].1) == view_json(y@[i].1),
        decreases n - j,
    {
        if !(x[j].0 == y[j].0) {
            proof {
                assert(view_fields(x@)[j as int] != view_fields(y@)[j as int]);
            }
            return false;
        }
        if !values_equal(&x[j].1, &y[j].1) {
            proof {
                assert(view_fields(x@)[j as int] != view_fields(y@)[j as int]);
            }
            return false;
        }
        j += 1;
    }
    proof {
        assert(view_fields(x@) =~= view_fields(y@));
    }
    true
}

/// Whether an object has a field with this key.
pub open spec fn has_key(fields: Seq<(Seq<char>, SpecJson)>, key: Seq<char>) -> bool
    decreases fields,
{
    fields.len() != 0 && (fields[0].0 == key || has_key(fields.drop_first(), key))
}

/// The value of the first field with this key; meaningful only under
/// `has_key`.
pub open spec fn obj_get(fields: Seq<(Seq<char>, SpecJson)>, key: Seq<char>) -> SpecJson
    decreases fields,
{
    if fields.len() == 0 {
        SpecJson::Null
    } else if fields[0].0 == key {
        fields[0].1
    } else {
        obj_get(fields.drop_first(), key)
    }
}

/// The object after `key` is set to `val`: the first field with this key is
/// replaced in place, or the field is appended when the key is absent.
pub open spec fn obj_insert(
    fields: Seq<(Seq<char>, SpecJson)>,
    key: Seq<char>,
    val: SpecJson,
) -> Seq<(Seq<char>, SpecJson)>
    decreases fields,
{
    if fields.len() == 0 {
        seq![(key, val)]
    } else if fields[0].0 == key {
        seq![(key, val)] + fields.drop_first()
    } else {
        seq![fields[0]] + obj_insert(fields.drop_first(), key, val)
    }
}

/// The object after the first field with this key is removed; the object
/// itself when the key is absent.
pub open spec fn obj_remove(fields: Seq<(Seq<char>, SpecJson)>, key: Seq<char>) -> Seq<
    (Seq<char>, SpecJson),
>
    decreases fields,
{
    if fields.len() == 0 {
        fields
    } else if fields[0].0 == key {
        fields.drop_first()
    } else {
        seq![fields[0]] + obj_remove(fields.drop_first(), key)
    }
}

/// No two fields share a key.
pub open spec fn unique_keys(fields: Seq<(Seq<char>, SpecJson)>) -> bool {
    forall|i: int, j: int| 0 <= i < j < fields.len() ==> fields[i].0 != fields[j].0
}

/// When `i` is the first position carrying `key`, removing the key removes
/// exactly that field.
pub proof fn lemma_obj_remove_first(fields: Seq<(Seq<char>, SpecJson)>, key: Seq<char>, i: int)
    requires
        0 <= i < fields.len(),
        fields[i].0 == key,
        forall|j: int| 0 <= j < i ==> fields[j].0 != key,
    ensures
        obj_remove(fields, key) == fields.remove(i),
    decreases i,
{
    if i == 0 {
        assert(fields.drop_first() =~= fields.remove(0));
    } else {
        lemma_obj_remove_first(fields.drop_first(), key, i - 1);
        assert(seq![fields[0]] + fields.drop_first().remove(i - 1) =~= fields.remove(i));
    }
}

/// When no field carries `key`, removing the key changes nothing.
pub proof fn lemma_obj_remove_none(fields: Seq<(Seq<char>, SpecJson)>, key: Seq<char>)
    requires
        !has_key(fields, key),
    ensures
        obj_remove(fields, key) == fields,
    decreases fields,
{
    if fields.len() != 0 {
        lemma_obj_remove_none(fields.drop_first(), key);
        assert(seq![fields[0]] + fields.drop_first() =~= fields);
    }
}

/// One step of a merge: fold the field into the accumulated object, merging
/// with the present value when the key is already there.
pub open spec fn merge_step(
    base: Seq<(Seq<char>, SpecJson)>,
    field: (Seq<char>, SpecJson),
) -> Seq<(Seq<char>, SpecJson)>
    decreases field,
{
    if has_key(base, field.0) {
        obj_insert(base, field.0, spec_merge(obj_get(base, field.0), field.1))
    } else {
        obj_insert(base, field.0, field.1)
    }
}

/// A deep merge: objects merge field by field, arrays concatenate, and any
/// other combination is overwritten by the new value.
pub open spec fn spec_merge(base: SpecJson, new: SpecJson) -> SpecJson
    decreases new,
{
    match (base, new) {
        (SpecJson::Object(bf), SpecJson::Object(nf)) => SpecJson::Object(
            spec_merge_fields(bf, nf),
        ),
        (SpecJson::Array(ba), SpecJson::Array(na)) => SpecJson::Array(ba + na),
        _ => new,
    }
}

/// The merged object: the new fields folded into the base, oldest first.
pub open spec fn spec_merge_fields(
    base: Seq<(Seq<char>, SpecJson)>,
    new: Seq<(Seq<char>, SpecJson)>,
) -> Seq<(Seq<char>, SpecJson)>
    decreases new,
{
    if new.len() == 0 {
        base
    } else {
        spec_merge_fields(merge_step(base, new[0]), new.drop_first())
    }
}

/// When `i` is the first position carrying `key`, a lookup reads exactly
/// that field and an insert updates exactly it.
pub proof fn lemma_obj_first_key(
    fields: Seq<(Seq<char>, SpecJson)>,
    key: Seq<char>,
    i: int,
    val: SpecJson,
)
    requires
        0 <= i < fields.len(),
        fields[i].0 == key,
        forall|j: int| 0 <= j < i ==> fields[j].0 != key,
    ensures
        has_key(fields, key),
        obj_get(fields, key) == fields[i].1,
        obj_insert(fields, key, val) == fields.update(i, (key, val)),
    decreases i,
{
    if i == 0 {
        assert(seq![(key, val)] + fields.drop_first() =~= fields.update(0, (key, val)));
    } else {
        lemma_obj_first_key(fields.drop_first(), key, i - 1, val);
        assert(seq![fields[0]] + obj_insert(fields.drop_first(), key, val) =~= fields.update(
            i,
            (key, val),
        ));
    }
}

/// When no field carries `key`, a lookup misses and an insert appends.
pub proof fn lemma_obj_no_key(fields: Seq<(Seq<char>, SpecJson)>, key: Seq<char>, val: SpecJson)
    requires
        forall|j: int| 0 <= j < fields.len() ==> fields[j].0 != key,
    ensures
        !has_key(fields, key),
        obj_insert(fields, key, val) == fields.push((key, val)),
    decreases fields,
{
    if fields.len() == 0 {
        assert(seq![(key, val)] =~= fields.push((key, val)));
    } else {
        assert(forall|j: int|
            0 <= j < fields.drop_first().len() ==> fields.drop_first()[j].0 != key);
        lemma_obj_no_key(fields.drop_first(), key, val);
        assert(seq![fields[0]] + fields.drop_first().push((key, val)) =~= fields.push(
            (key, val),
        ));
    }
}

/// Merging a concatenation of field batches folds them one after the other.
pub proof fn lemma_merge_fields_append(
    base: Seq<(Seq<char>, SpecJson)>,
    s1: Seq<(Seq<char>, SpecJson)>,
    s2: Seq<(Seq<char>, SpecJson)>,
)
    ensures
        spec_merge_fields(base, s1 + s2) == spec_merge_fields(spec_merge_fields(base, s1), s2),
    decreases s1,
{
    if s1.len() == 0 {
        assert(s1 + s2 =~= s2);
    } else {
        assert((s1 + s2)[0] == s1[0]);
        assert((s1 + s2).drop_first() =~= s1.drop_first() + s2);
        lemma_merge_fields_append(merge_step(base, s1[0]), s1.drop_first(), s2);
    }
}

/// The position of the first field carrying `key`, if any.
fn obj_find(fields: &Vec<(String, JsonValue)>, key: &String) -> (r: Option<usize>)
    ensures
        match r {
            Some(i) => 0 <= i < fields@.len() && fields@[i as int].0@ == key@ && (forall|j: int|
                0 <= j < i ==> fields@[j].0@ != key@),
            None => forall|j: int| 0 <= j < fields@.len() ==> fields@[j].0@ != key@,
        },
{
    let n = fields.len();
    let mut j: usize = 0;
    while j < n
        invariant
            n == fields@.len(),
            j <= n,
            forall|k: int| 0 <= k < j ==> fields@[k].0@ != key@,
        decreases n - j,
    {
        if fields[j].0 == *key {
            return Some(j);
        }
        j += 1;
    }
    None
}

/// A deep merge, exactly as `spec_merge` describes it: objects merge field
/// by field — a key present on both sides has its values merged in place,
/// a new key is appended — arrays concatenate, and any other combination is
/// overwritten by the new value.
pub fn merge_values(base: &JsonValue, new: &JsonValue) -> (r: JsonValue)
    ensures
        r@ == spec_merge(base@, new@),
    decreases new,
{
    match (base, new) {
        (JsonValue::Object(bf), JsonValue::Object(nf)) => {
            let mut merged = clone_fields(bf);
            merge_fields_into(&mut merged, nf);
            JsonValue::Object(merged)
        },
        (JsonValue::Array(ba), JsonValue::Array(na)) => {
            let mut out = clone_items(ba);
            let mut more = clone_items(na);
            proof {
                lemma_view_items(out@);
                lemma_view_items(more@);
                lemma_view_items(out@ + more@);
                assert(view_items(out@ + more@) =~= view_items(ba@) + view_items(na@));
            }
            out.append(&mut more);
            JsonValue::Array(out)
        },
        _ => clone_value(new),
    }
}

/// Fold every field of `nf` into `merged`, front to back, as
/// `spec_merge_fields` describes.
fn merge_fields_into(merged: &mut Vec<(String, JsonValue)>, nf: &Vec<(String, JsonValue)>)
    ensures
        view_fields(final(merged)@) == spec_merge_fields(
            view_fields(old(merged)@),
            view_fields(nf@),
        ),
    decreases nf,
{
    let n = nf.len();
    let mut j: usize = 0;
    proof {
        lemma_view_fields(nf@);
        assert(view_fields(nf@).take(0) =~= Seq::empty());
    }
    while j < n
        invariant
            n == nf@.len(),
            j <= n,
            view_fields(nf@).len() == n,
            forall|i: int|
                0 <= i < n ==> view_fields(nf@)[i] == (nf@[i].0@, view_json(nf@[i].1)),
            view_fields(merged@) == spec_merge_fields(
                view_fields(old(merged)@),
                view_fields(nf@).take(j as int),
            ),
        decreases n - j,
    {
        let ghost pre = merged@;
        let ghost e = view_fields(nf@)[j as int];
        let mv_opt = obj_find(merged, &nf[j].0);
        match mv_opt {
            Some(i) => {
                proof {
                    lemma_view_fields(pre);
                    lemma_obj_first_key(
                        view_fields(pre),
                        nf@[j as int].0@,
                        i as int,
                        spec_merge(view_json(pre[i as int].1), view_json(nf@[j as int].1)),
                    );
                }
                let mv = merge_values(&merged[i].1, &nf[j].1);
                let k2 = nf[j].0.clone();
                merged[i] = (k2, mv);
                proof {
                    lemma_view_fields(merged@);
                    lemma_view_fields(pre);
                    assert(view_fields(merged@) =~= view_fields(pre).update(
                        i as int,
                        (e.0, spec_merge(obj_get(view_fields(pre), e.0), e.1)),
                    ));
                    assert(view_fields(merged@) == merge_step(view_fields(pre), e));
                }
            },
            None => {
                proof {
                    lemma_view_fields(pre);
                    lemma_obj_no_key(view_fields(pre), nf@[j as int].0@, view_json(nf@[j as int].1));
                }
                let k2 = nf[j].0.clone();
                let cv = clone_value(&nf[j].1);
                merged.push((k2, cv));
                proof {
                    lemma_view_fields(merged@);
                    lemma_view_fields(pre);
                    assert(view_fields(merged@) =~= view_fields(pre).push((e.0, e.1)));
                    assert(view_fields(merged@) == merge_step(view_fields(pre), e));
                }
            },
        }
        proof {
            assert(view_fields(nf@).take(j + 1) =~= view_fields(nf@).take(j as int) + seq![e]);
            lemma_merge_fields_append(
                view_fields(old(merged)@),
                view_fields(nf@).take(j as int),
                seq![e],
            );
            assert(seq![e].drop_first() =~= Seq::<(Seq<char>, SpecJson)>::empty());
            assert(spec_merge_fields(merge_step(view_fields(pre), e), Seq::empty()) == merge_step(
                view_fields(pre),
                e,
            ));
            assert(spec_merge_fields(view_fields(pre), seq![e]) == merge_step(
                view_fields(pre),
                e,
            ));
        }
        j += 1;
    }
    proof {
        assert(view_fields(nf@).take(n as int) =~= view_fields(nf@));
    }
}

/// A dotted path, split on every dot: one segment more than there are dots,
/// so the empty path is the single empty segment.
pub open spec fn spec_split(s: Seq<char>) -> Seq<Seq<char>>
    decreases s,
{
    if s.len() == 0 {
        seq![Seq::<char>::empty()]
    } else if s[0] == '.' {
        seq![Seq::<char>::empty()] + spec_split(s.drop_first())
    } else {
        seq![seq![s[0]] + spec_split(s.drop_first())[0]] + spec_split(s.drop_first()).drop_first()
    }
}

/// A split is never empty: there is always at least the first segment.
pub proof fn lemma_split_nonempty(s: Seq<char>)
    ensures
        spec_split(s).len() >= 1,
{
}

/// A sequence of segments with more characters in front of its first one.
pub open spec fn prepend_first(c: Seq<char>, segs: Seq<Seq<char>>) -> Seq<Seq<char>> {
    seq![c + segs[0]] + segs.drop_first()
}

/// The character sequences a sequence of strings stands for.
pub open spec fn str_views(ps: Seq<String>) -> Seq<Seq<char>> {
    ps.map_values(|p: String| p@)
}

/// Relies on std's String::push, which appends the given character to the
/// end of the string.
#[verifier::external_body]
fn push_char(s: &mut String, c: char)
    ensures
        final(s)@ == old(s)@.push(c),
{
    s.push(c);
}

/// Split a dotted path on every dot, exactly as `spec_split` describes:
/// one segment more than there are dots, in order, dots not included.
pub fn split_path(path: &String) -> (r: Vec<String>)
    ensures
        str_views(r@) == spec_split(path@),
        r@.len() >= 1,
{
    let ps = path.as_str();
    let n = ps.unicode_len();
    let mut parts: Vec<String> = Vec::new();
    let mut cur = String::new();
    let mut i: usize = 0;
    proof {
        assert(path@.skip(0) =~= path@);
        assert(str_views(parts@) =~= Seq::empty());
    }
    while i < n
        invariant
            n == path@.len(),
            ps@ == path@,
            i <= n,
            spec_split(path@) =~= str_views(parts@) + prepend_first(
                cur@,
                spec_split(path@.skip(i as int)),
            ),
        decreases n - i,
    {
        let ghost rest = path@.skip(i as int);
        let ghost x = spec_split(path@.skip(i as int + 1));
        proof {
            lemma_split_nonempty(path@.skip(i as int + 1));
            assert(rest[0] == path@[i as int]);
            assert(rest.drop_first() =~= path@.skip(i as int + 1));
        }
        let c = ps.get_char(i);
        if c == '.' {
            proof {
                assert(spec_split(rest) == seq![Seq::<char>::empty()] + x);
                assert(cur@ + Seq::<char>::empty() =~= cur@);
                assert((seq![Seq::<char>::empty()] + x).drop_first() =~= x);
                assert(prepend_first(cur@, spec_split(rest)) =~= seq![cur@] + x);
            }
            let done = cur;
            cur = String::new();
            parts.push(done);
            proof {
                assert(Seq::<char>::empty() + x[0] =~= x[0]);
                assert(prepend_first(cur@, x) =~= x);
                assert(str_views(parts@) =~= str_views(parts@.drop_last()).push(done@));
                assert(str_views(parts@) + prepend_first(cur@, x) =~= str_views(
                    parts@.drop_last(),
                ) + (seq![done@] + x));
            }
        } else {
            proof {
                assert(spec_split(rest) == seq![seq![rest[0]] + x[0]] + x.drop_first());
                assert(cur@ + (seq![rest[0]] + x[0]) =~= cur@.push(rest[0]) + x[0]);
                assert((seq![seq![rest[0]] + x[0]] + x.drop_first()).drop_first() =~= x.drop_first());
                assert(prepend_first(cur@, spec_split(rest)) =~= seq![cur@.push(rest[0]) + x[0]]
                    + x.drop_first());
            }
            push_char(&mut cur, c);
            proof {
                assert(prepend_first(cur@, x) =~= seq![cur@ + x[0]] + x.drop_first());
            }
        }
        i += 1;
    }
    proof {
        assert(path@.skip(n as int) =~= Seq::<char>::empty());
        assert(spec_split(path@.skip(n as int)) == seq![Seq::<char>::empty()]);
        assert(cur@ + Seq::<char>::empty() =~= cur@);
        assert((seq![Seq::<char>::empty()]).drop_first() =~= Seq::<Seq<char>>::empty());
        assert(prepend_first(cur@, spec_split(path@.skip(n as int))) =~= seq![cur@]);
    }
    let ghost before = parts@;
    parts.push(cur);
    proof {
        assert(str_views(parts@) =~= str_views(before) + seq![cur@]);
    }
    parts
}

/// The document a dotted path leads to: `None` when a step leads through
/// something other than an object or onto an absent key.
pub open spec fn spec_get_nested(v: SpecJson, parts: Seq<Seq<char>>) -> Option<SpecJson>
    decreases parts,
{
    if parts.len() == 0 {
        Some(v)
    } else {
        match v {
            SpecJson::Object(fields) => if has_key(fields, parts[0]) {
                spec_get_nested(obj_get(fields, parts[0]), parts.drop_first())
            } else {
                Option::<SpecJson>::None
            },
            _ => Option::<SpecJson>::None,
        }
    }
}

/// The document after a dotted path is set to `val`: intermediate objects
/// are created where a key is absent, and `None` is the outcome when a step
/// leads through or onto something other than an object.
pub open spec fn spec_set_nested(v: SpecJson, parts: Seq<Seq<char>>, val: SpecJson) -> Option<
    SpecJson,
>
    decreases parts,
{
    if parts.len() == 0 {
        Option::<SpecJson>::None
    } else {
        match v {
            SpecJson::Object(fields) => {
                if parts.len() == 1 {
                    Some(SpecJson::Object(obj_insert(fields, parts[0], val)))
                } else {
                    let child = if has_key(fields, parts[0]) {
                        obj_get(fields, parts[0])
                    } else {
                        SpecJson::Object(Seq::empty())
                    };
                    match spec_set_nested(child, parts.drop_first(), val) {
                        Some(nc) => Some(SpecJson::Object(obj_insert(fields, parts[0], nc))),
                        None => Option::<SpecJson>::None,
                    }
                }
            },
            _ => Option::<SpecJson>::None,
        }
    }
}

/// "Property 'part' not found" and its siblings: the texts the path errors
/// carry.
fn path_message(prefix: &str, part: &String, suffix: &str) -> (r: String) {
    let mut m = String::from_str(prefix);
    m.append(part.as_str());
    m.append(suffix);
    m
}

/// Set `key` to `val`, replacing the first field with this key in place or
/// appending the field when the key is absent, exactly as `obj_insert`
/// describes.
pub fn obj_set(fields: &mut Vec<(String, JsonValue)>, key: String, val: JsonValue)
    ensures
        view_fields(final(fields)@) == obj_insert(view_fields(old(fields)@), key@, val@),
        unique_keys(view_fields(old(fields)@)) ==> unique_keys(view_fields(final(fields)@)),
{
    let ghost pre = old(fields)@;
    match obj_find(fields, &key) {
        Some(i) => {
            proof {
                lemma_view_fields(pre);
                lemma_obj_first_key(view_fields(pre), key@, i as int, val@);
            }
            fields[i] = (key, val);
            proof {
                lemma_view_fields(fields@);
                assert(view_fields(fields@) =~= view_fields(pre).update(i as int, (key@, val@)));
                assert forall|a: int| 0 <= a < view_fields(pre).len() implies view_fields(
                    fields@,
                )[a].0 == view_fields(pre)[a].0 by {
                    assert(view_fields(pre)[i as int].0 == key@);
                }
                if unique_keys(view_fields(pre)) {
                    assert forall|a: int, b: int|
                        0 <= a < b < view_fields(fields@).len() implies view_fields(fields@)[a].0
                        != view_fields(fields@)[b].0 by {
                        assert(view_fields(pre)[a].0 != view_fields(pre)[b].0);
                    }
                }
            }
        },
        None => {
            proof {
                lemma_view_fields(pre);
                lemma_obj_no_key(view_fields(pre), key@, val@);
            }
            fields.push((key, val));
            proof {
                lemma_view_fields(fields@);
                assert(view_fields(fields@) =~= view_fields(pre).push((key@, val@)));
                if unique_keys(view_fields(pre)) {
                    assert forall|a: int, b: int|
                        0 <= a < b < view_fields(fields@).len() implies view_fields(fields@)[a].0
                        != view_fields(fields@)[b].0 by {
                        if b < view_fields(pre).len() {
                            assert(view_fields(pre)[a].0 != view_fields(pre)[b].0);
                        } else {
                            assert(view_fields(pre)[a].0 != key@);
                        }
                    }
                }
            }
        },
    }
}

/// Follow a dotted path through a document and hand back a copy of what it
/// leads to, exactly as `spec_get_nested` over `spec_split` describes; a
/// path that leads through a non-object or onto an absent key is an
/// `InvalidPath` error.
pub fn get_nested_value(obj: &JsonValue, path: &String) -> (r: Result<JsonValue, Error>)
    ensures
        r matches Ok(v) ==> spec_get_nested(obj@, spec_split(path@)) == Some(v@),
        r is Err ==> spec_get_nested(obj@, spec_split(path@)) is None,
        r matches Err(e) ==> e is InvalidPath,
{
    let parts = split_path(path);
    let ghost segs = spec_split(path@);
    let n = parts.len();
    let mut current: &JsonValue = obj;
    let mut k: usize = 0;
    proof {
        assert(segs.skip(0) =~= segs);
    }
    while k < n
        invariant
            n == parts@.len(),
            k <= n,
            segs == spec_split(path@),
            str_views(parts@) == segs,
            spec_get_nested(obj@, segs) == spec_get_nested(current@, segs.skip(k as int)),
        decreases n - k,
    {
        proof {
            assert(segs.skip(k as int)[0] == parts@[k as int]@);
            assert(segs.skip(k as int).drop_first() =~= segs.skip(k as int + 1));
        }
        match current {
            JsonValue::Object(fields) => {
                match obj_find(fields, &parts[k]) {
                    Some(i) => {
                        proof {
                            lemma_view_fields(fields@);
                            lemma_obj_first_key(
                                view_fields(fields@),
                                parts@[k as int]@,
                                i as int,
                                SpecJson::Null,
                            );
                        }
                        current = &fields[i].1;
                    },
                    None => {
                        proof {
                            lemma_view_fields(fields@);
                            lemma_obj_no_key(view_fields(fields@), parts@[k as int]@, SpecJson::Null);
                            assert(current@ == SpecJson::Object(view_fields(fields@)));
                            assert(spec_get_nested(current@, segs.skip(k as int)) is None);
                        }
                        return Err(
                            Error::InvalidPath(path_message("Property '", &parts[k], "' not found")),
                        );
                    },
                }
            },
            _ => {
                proof {
                    assert(!(current@ is Object));
                    assert(spec_get_nested(current@, segs.skip(k as int)) is None);
                }
                return Err(
                    Error::InvalidPath(
                        path_message("Cannot navigate through non-object at '", &parts[k], "'"),
                    ),
                );
            },
        }
        k += 1;
    }
    proof {
        assert(segs.skip(n as int) =~= Seq::<Seq<char>>::empty());
    }
    Ok(clone_value(current))
}

/// The recursive body of `set_nested_value`: the document rebuilt with the
/// remaining path, from segment `k` on, set to `value`.
fn set_nested_parts(obj: &JsonValue, parts: &Vec<String>, k: usize, value: &JsonValue) -> (r:
    Result<JsonValue, Error>)
    requires
        k < parts@.len(),
    ensures
        r matches Ok(nv) ==> spec_set_nested(obj@, str_views(parts@).skip(k as int), value@)
            == Some(nv@),
        r is Err ==> spec_set_nested(obj@, str_views(parts@).skip(k as int), value@) is None,
        r matches Err(e) ==> e is InvalidPath,
    decreases parts@.len() - k,
{
    let ghost segs = str_views(parts@).skip(k as int);
    proof {
        assert(segs[0] == parts@[k as int]@);
        assert(segs.drop_first() =~= str_views(parts@).skip(k as int + 1));
    }
    match obj {
        JsonValue::Object(fields) => {
            if k == parts.len() - 1 {
                let mut nf = clone_fields(fields);
                obj_set(&mut nf, parts[k].clone(), clone_value(value));
                Ok(JsonValue::Object(nf))
            } else {
                let child_new: Result<JsonValue, Error> = match obj_find(fields, &parts[k]) {
                    Some(i) => {
                        proof {
                            lemma_view_fields(fields@);
                            lemma_obj_first_key(
                                view_fields(fields@),
                                parts@[k as int]@,
                                i as int,
                                SpecJson::Null,
                            );
                        }
                        set_nested_parts(&fields[i].1, parts, k + 1, value)
                    },
                    None => {
                        proof {
                            lemma_view_fields(fields@);
                            lemma_obj_no_key(view_fields(fields@), parts@[k as int]@, SpecJson::Null);
                        }
                        let empty = JsonValue::Object(Vec::new());
                        proof {
                            assert(empty@ == SpecJson::Object(view_fields(Seq::empty())));
                            assert(view_fields(Seq::<(String, JsonValue)>::empty())
                                =~= Seq::<(Seq<char>, SpecJson)>::empty());
                        }
                        set_nested_parts(&empty, parts, k + 1, value)
                    },
                };
                match child_new {
                    Ok(nc) => {
                        let mut nf = clone_fields(fields);
                        obj_set(&mut nf, parts[k].clone(), nc);
                        Ok(JsonValue::Object(nf))
                    },
                    Err(e) => Err(e),
                }
            }
        },
        _ => {
            if k == parts.len() - 1 {
                Err(
                    Error::InvalidPath(
                        path_message("Cannot set property '", &parts[k], "' on non-object"),
                    ),
                )
            } else {
                Err(
                    Error::InvalidPath(
                        path_message("Cannot navigate through non-object at '", &parts[k], "'"),
                    ),
                )
            }
        },
    }
}

/// Set what a dotted path leads to, creating intermediate objects where a
/// key is absent, exactly as `spec_set_nested` over `spec_split` describes.
/// A path that leads through or onto something other than an object is an
/// `InvalidPath` error, and the document is then untouched.
pub fn set_nested_value(obj: &mut JsonValue, path: &String, value: &JsonValue) -> (r: Result<
    (),
    Error,
>)
    ensures
        r is Ok ==> spec_set_nested(old(obj)@, spec_split(path@), value@) == Some(final(obj)@),
        r is Err ==> spec_set_nested(old(obj)@, spec_split(path@), value@) is None && final(obj)@
            == old(obj)@,
        r matches Err(e) ==> e is InvalidPath,
{
    let parts = split_path(path);
    proof {
        assert(str_views(parts@).skip(0) =~= str_views(parts@));
    }
    match set_nested_parts(obj, &parts, 0, value) {
        Ok(nv) => {
            *obj = nv;
            Ok(())
        },
        Err(e) => Err(e),
    }
}

} // verus!
