use super::error::Error;
use super::json::{
    clone_fields, clone_value, has_key, lemma_obj_remove_first, lemma_obj_remove_none,
    lemma_view_fields, obj_get, obj_insert, obj_remove, obj_set, set_nested_value, spec_get_nested,
    spec_merge, spec_set_nested, spec_split, unique_keys, view_fields, view_json, JsonValue,
    SpecJson,
};
use super::json::{get_nested_value, merge_values};
use vstd::prelude::*;
use vstd::string::StringExecFns;

verus! {

/// The settings store: named JSON documents, one per key, insertion-ordered
/// and with no key stored twice. The persistence of these documents — a
/// database file, its connection, its migrations — belongs to the embedding
/// application; this type is the source of truth for what every operation
/// stores and returns.
#[derive(Debug)]
pub struct DatabaseState {
    pub settings: Vec<(String, JsonValue)>,
}

impl DatabaseState {
    /// What the store holds: its keys and documents, in insertion order.
    pub open spec fn entries(self) -> Seq<(Seq<char>, SpecJson)> {
        view_fields(self.settings@)
    }

    /// No key is stored twice.
    pub open spec fn wf(self) -> bool {
        unique_keys(self.entries())
    }

    pub fn new() -> (r: Self)
        ensures
            r.entries().len() == 0,
            r.wf(),
    {
        let r = DatabaseState { settings: Vec::new() };
        proof {
            lemma_view_fields(r.settings@);
            assert(r.entries() =~= Seq::<(Seq<char>, SpecJson)>::empty());
        }
        r
    }

    /// Store `value` under `key`, replacing in place what the key held
    /// before or appending a fresh entry.
    pub fn set_setting(&mut self, key: &String, value: &JsonValue)
        requires
            old(self).wf(),
        ensures
            final(self).wf(),
            final(self).entries() == obj_insert(old(self).entries(), key@, value@),
    {
        let v = clone_value(value);
        obj_set(&mut self.settings, key.clone(), v);
    }

    /// A copy of the document stored under `key`, or `None` when the key
    /// holds nothing.
    pub fn get_setting(&self, key: &String) -> (r: Option<JsonValue>)
        ensures
            r is Some <==> has_key(self.entries(), key@),
            r matches Some(v) ==> v@ == obj_get(self.entries(), key@),
    {
        match self.find(key) {
            Some(i) => Some(clone_value(&self.settings[i].1)),
            None => None,
        }
    }

    /// The document stored under `key`, or the empty document — null — when
    /// the key holds nothing.
    pub fn get_setting_or_default(&self, key: &String) -> (r: JsonValue)
        ensures
            has_key(self.entries(), key@) ==> r@ == obj_get(self.entries(), key@),
            !has_key(self.entries(), key@) ==> r@ == SpecJson::Null,
    {
        match self.get_setting(key) {
            Some(v) => v,
            None => JsonValue::Null,
        }
    }

    /// The document stored under `key`, or the given default when the key
    /// holds nothing.
    pub fn get_setting_with_default(&self, key: &String, default_value: JsonValue) -> (r:
        JsonValue)
        ensures
            has_key(self.entries(), key@) ==> r@ == obj_get(self.entries(), key@),
            !has_key(self.entries(), key@) ==> r@ == default_value@,
    {
        match self.get_setting(key) {
            Some(v) => v,
            None => default_value,
        }
    }

    /// Fold `new_value` into what `key` holds: a deep merge with the stored
    /// document when there is one, the new document alone otherwise.
    pub fn merge_settings(&mut self, key: &String, new_value: &JsonValue)
        requires
            old(self).wf(),
        ensures
            final(self).wf(),
            has_key(old(self).entries(), key@) ==> final(self).entries() == obj_insert(
                old(self).entries(),
                key@,
                spec_merge(obj_get(old(self).entries(), key@), new_value@),
            ),
            !has_key(old(self).entries(), key@) ==> final(self).entries() == obj_insert(
                old(self).entries(),
                key@,
                new_value@,
            ),
    {
        let merged = match self.get_setting(key) {
            Some(existing) => merge_values(&existing, new_value),
            None => clone_value(new_value),
        };
        self.set_setting(key, &merged);
    }

    /// Set what a dotted path leads to inside the document under `key`,
    /// starting from an empty object when the key holds nothing; an
    /// `InvalidPath` error leaves the store untouched.
    pub fn set_nested_setting(&mut self, key: &String, path: &String, value: &JsonValue) -> (r:
        Result<(), Error>)
        requires
            old(self).wf(),
        ensures
            final(self).wf(),
            ({
                let base = if has_key(old(self).entries(), key@) {
                    obj_get(old(self).entries(), key@)
                } else {
                    SpecJson::Object(Seq::empty())
                };
                match spec_set_nested(base, spec_split(path@), value@) {
                    Some(nv) => r is Ok && final(self).entries() == obj_insert(
                        old(self).entries(),
                        key@,
                        nv,
                    ),
                    None => r is Err && (r matches Err(e) ==> e is InvalidPath) && final(self).entries()
                        == old(self).entries(),
                }
            }),
    {
        let mut existing = match self.get_setting(key) {
            Some(v) => v,
            None => {
                let e = JsonValue::Object(Vec::new());
                proof {
                    lemma_view_fields(Seq::<(String, JsonValue)>::empty());
                    assert(view_fields(Seq::<(String, JsonValue)>::empty()) =~= Seq::<
                        (Seq<char>, SpecJson),
                    >::empty());
                }
                e
            },
        };
        match set_nested_value(&mut existing, path, value) {
            Ok(()) => {
                self.set_setting(key, &existing);
                Ok(())
            },
            Err(e) => Err(e),
        }
    }

    /// Follow a dotted path inside the document under `key`: the key must
    /// hold a document — otherwise `SettingNotFound` — and the path must
    /// lead somewhere in it — otherwise `InvalidPath`.
    pub fn get_nested_setting(&self, key: &String, path: &String) -> (r: Result<JsonValue, Error>)
        ensures
            !has_key(self.entries(), key@) ==> (r matches Err(e) && e is SettingNotFound),
            has_key(self.entries(), key@) ==> match spec_get_nested(
                obj_get(self.entries(), key@),
                spec_split(path@),
            ) {
                Some(v) => r matches Ok(rv) && rv@ == v,
                None => r matches Err(e) && e is InvalidPath,
            },
    {
        match self.find(key) {
            Some(i) => get_nested_value(&self.settings[i].1, path),
            None => Err(Error::SettingNotFound(key.clone())),
        }
    }

    /// Drop the entry under `key`; the result says whether there was one.
    pub fn delete_setting(&mut self, key: &String) -> (r: bool)
        requires
            old(self).wf(),
        ensures
            final(self).wf(),
            r == has_key(old(self).entries(), key@),
            final(self).entries() == obj_remove(old(self).entries(), key@),
    {
        let ghost pre = self.settings@;
        match self.find(key) {
            Some(i) => {
                proof {
                    lemma_view_fields(pre);
                    lemma_obj_remove_first(view_fields(pre), key@, i as int);
                }
                self.settings.remove(i);
                proof {
                    lemma_view_fields(self.settings@);
                    assert(view_fields(self.settings@) =~= view_fields(pre).remove(i as int));
                    assert forall|a: int, b: int|
                        0 <= a < b < view_fields(self.settings@).len() implies view_fields(
                        self.settings@,
                    )[a].0 != view_fields(self.settings@)[b].0 by {
                        let vf = view_fields(pre);
                        assert(vf.remove(i as int)[a] == if a < i {
                            vf[a]
                        } else {
                            vf[a + 1]
                        });
                        assert(vf.remove(i as int)[b] == if b < i {
                            vf[b]
                        } else {
                            vf[b + 1]
                        });
                    }
                }
                true
            },
            None => {
                proof {
                    lemma_view_fields(pre);
                    lemma_obj_remove_none(view_fields(pre), key@);
                }
                false
            },
        }
    }

    /// A copy of every entry, in storage order.
    pub fn list_settings(&self) -> (r: Vec<(String, JsonValue)>)
        ensures
            view_fields(r@) == self.entries(),
    {
        clone_fields(&self.settings)
    }

    /// Whether `key` holds a document.
    pub fn setting_exists(&self, key: &String) -> (r: bool)
        ensures
            r == has_key(self.entries(), key@),
    {
        match self.find(key) {
            Some(_) => true,
            None => false,
        }
    }

    /// Drop every entry; the result says how many there were.
    pub fn clear_all_settings(&mut self) -> (r: u64)
        requires
            old(self).entries().len() <= u64::MAX,
        ensures
            final(self).wf(),
            final(self).entries().len() == 0,
            r == old(self).entries().len(),
    {
        proof {
            lemma_view_fields(self.settings@);
        }
        let n = self.settings.len() as u64;
        self.settings.clear();
        proof {
            lemma_view_fields(self.settings@);
            assert(final(self).entries() =~= Seq::<(Seq<char>, SpecJson)>::empty());
        }
        n
    }

    /// How many entries the store holds.
    pub fn count_settings(&self) -> (r: i64)
        requires
            self.entries().len() <= i64::MAX,
        ensures
            r == self.entries().len(),
    {
        proof {
            lemma_view_fields(self.settings@);
        }
        self.settings.len() as i64
    }

    /// Store a plain text document under `key`.
    pub fn set_string_setting(&mut self, key: &String, value: String)
        requires
            old(self).wf(),
        ensures
            final(self).wf(),
            final(self).entries() == obj_insert(
                old(self).entries(),
                key@,
                SpecJson::Text(value@),
            ),
    {
        obj_set(&mut self.settings, key.clone(), JsonValue::Text(value));
    }

    /// The text stored under `key`: `None` when the key holds nothing, and
    /// a decoding error when it holds something other than text.
    pub fn get_string_setting(&self, key: &String) -> (r: Result<Option<String>, Error>)
        ensures
            !has_key(self.entries(), key@) ==> r == Ok::<Option<String>, Error>(
                Option::<String>::None,
            ),
            has_key(self.entries(), key@) ==> match obj_get(self.entries(), key@) {
                SpecJson::Text(t) => r matches Ok(o) && (o matches Some(s) && s@ == t),
                _ => r matches Err(e) && e is JsonSerialization,
            },
    {
        match self.find(key) {
            Some(i) => match &self.settings[i].1 {
                JsonValue::Text(s) => Ok(Some(s.clone())),
                _ => Err(Error::JsonSerialization(expected_message("string"))),
            },
            None => Ok(None),
        }
    }

    /// Store a boolean document under `key`.
    pub fn set_bool_setting(&mut self, key: &String, value: bool)
        requires
            old(self).wf(),
        ensures
            final(self).wf(),
            final(self).entries() == obj_insert(
                old(self).entries(),
                key@,
                SpecJson::Bool(value),
            ),
    {
        obj_set(&mut self.settings, key.clone(), JsonValue::Bool(value));
    }

    /// The boolean stored under `key`: `None` when the key holds nothing,
    /// and a decoding error when it holds something other than a boolean.
    pub fn get_bool_setting(&self, key: &String) -> (r: Result<Option<bool>, Error>)
        ensures
            !has_key(self.entries(), key@) ==> r == Ok::<Option<bool>, Error>(
                Option::<bool>::None,
            ),
            has_key(self.entries(), key@) ==> match obj_get(self.entries(), key@) {
                SpecJson::Bool(b) => r == Ok::<Option<bool>, Error>(Some(b)),
                _ => r matches Err(e) && e is JsonSerialization,
            },
    {
        match self.find(key) {
            Some(i) => match &self.settings[i].1 {
                JsonValue::Bool(b) => Ok(Some(*b)),
                _ => Err(Error::JsonSerialization(expected_message("boolean"))),
            },
            None => Ok(None),
        }
    }

    /// Store a numeric document under `key`.
    pub fn set_number_setting(&mut self, key: &String, value: i64)
        requires
            old(self).wf(),
        ensures
            final(self).wf(),
            final(self).entries() == obj_insert(
                old(self).entries(),
                key@,
                SpecJson::Number(value as int),
            ),
    {
        obj_set(&mut self.settings, key.clone(), JsonValue::Number(value));
    }

    /// The number stored under `key`: `None` when the key holds nothing,
    /// and a decoding error when it holds something other than a number.
    pub fn get_number_setting(&self, key: &String) -> (r: Result<Option<i64>, Error>)
        ensures
            !has_key(self.entries(), key@) ==> r == Ok::<Option<i64>, Error>(Option::<i64>::None),
            has_key(self.entries(), key@) ==> match obj_get(self.entries(), key@) {
                SpecJson::Number(n) => r matches Ok(o) && (o matches Some(m) && m as int == n),
                _ => r matches Err(e) && e is JsonSerialization,
            },
    {
        match self.find(key) {
            Some(i) => match &self.settings[i].1 {
                JsonValue::Number(n) => Ok(Some(*n)),
                _ => Err(Error::JsonSerialization(expected_message("number"))),
            },
            None => Ok(None),
        }
    }

    /// The position of the entry carrying `key`, if any, together with the
    /// facts the other methods need about it.
    fn find(&self, key: &String) -> (r: Option<usize>)
        ensures
            match r {
                Some(i) => 0 <= i < self.settings@.len() && self.settings@[i as int].0@ == key@
                    && has_key(self.entries(), key@) && obj_get(self.entries(), key@) == view_json(
                    self.settings@[i as int].1,
                ) && (forall|j: int| 0 <= j < i ==> self.settings@[j].0@ != key@),
                None => !has_key(self.entries(), key@),
            },
    {
        let n = self.settings.len();
        let mut j: usize = 0;
        while j < n
            invariant
                n == self.settings@.len(),
                j <= n,
                forall|k: int| 0 <= k < j ==> self.settings@[k].0@ != key@,
            decreases n - j,
        {
            if self.settings[j].0 == *key {
                proof {
                    lemma_view_fields(self.settings@);
                    super::json::lemma_obj_first_key(
                        self.entries(),
                        key@,
                        j as int,
                        SpecJson::Null,
                    );
                }
                return Some(j);
            }
            j += 1;
        }
        proof {
            lemma_view_fields(self.settings@);
            super::json::lemma_obj_no_key(self.entries(), key@, SpecJson::Null);
        }
        None
    }
}

/// "Expected string value" and its siblings: the texts the decoding errors
/// carry.
fn expected_message(kind: &str) -> (r: String) {
    let mut m = String::from_str("Expected ");
    m.append(kind);
    m.append(" value");
    m
}

} // verus!
