//! Structural merge of one leaf of a JSON settings document:
//! `root[parent_key][leaf_key]`, every other key left as it was.

use vstd::prelude::*;
use crate::json::{json_eqv, json_parse, json_pretty, json_same, lemma_json_eqv_refl, member, parse_json, render_json_pretty, JsonValue};
use crate::members::{lemma_find_key_bounds, lemma_find_key_push, lemma_find_key_update, lemma_with_member, position_of, remove_member, set_member, without_member};
use crate::text::owned;

verus! {

#[derive(Clone, Copy, Debug, PartialEq, Eq, Structural)]
pub enum MergeOutcome {
    Inserted,
    Updated,
    AlreadyMatches,
    Removed,
    NotPresent,
}

/// Why a settings document could not be merged.
#[derive(Clone, Copy, Debug, PartialEq, Eq, Structural)]
pub enum JsonMergeError {
    /// The text is not one well-formed JSON document.
    Parse,
    /// The document's root is not an object.
    NotObject,
    /// `root[parent_key]` exists and is not an object.
    ParentNotObject,
}

/// `root[p][l]`, when both levels exist.
pub open spec fn lookup2(root: JsonValue, p: Seq<char>, l: Seq<char>) -> Option<JsonValue> {
    match member(root, p) {
        Some(x) => member(x, l),
        None => None,
    }
}

/// `new` is `old` with `old[p][l]` set to `value`: the parent is an object
/// holding `value` under `l`, and every other key, at either level, reads
/// as before.
pub open spec fn upserted(old: JsonValue, new: JsonValue, p: Seq<char>, l: Seq<char>, value: JsonValue) -> bool {
    &&& new is Object
    &&& member(new, p) matches Some(np) && np is Object
    &&& lookup2(new, p, l) == Some(value)
    &&& forall|k: Seq<char>| k != l ==> #[trigger] lookup2(new, p, k) == lookup2(old, p, k)
    &&& forall|k: Seq<char>| k != p ==> #[trigger] member(new, k) == member(old, k)
}

/// The outcome an upsert of `value` at `root[p][l]` reports.
pub open spec fn upsert_outcome(root: JsonValue, p: Seq<char>, l: Seq<char>, value: JsonValue) -> MergeOutcome {
    match lookup2(root, p, l) {
        Some(e) => if json_eqv(e, value) { MergeOutcome::AlreadyMatches } else { MergeOutcome::Updated },
        None => MergeOutcome::Inserted,
    }
}

/// `root[p]` exists and is not an object.
pub open spec fn parent_not_object(root: JsonValue, p: Seq<char>) -> bool {
    member(root, p) matches Some(x) && !(x is Object)
}

fn outcome_for(root: &JsonValue, parent_key: &str, leaf_key: &str, value: &JsonValue) -> (r: Result<MergeOutcome, JsonMergeError>)
    ensures
        !(*root is Object) ==> r matches Err(JsonMergeError::NotObject),
        *root is Object && parent_not_object(*root, parent_key@) ==> r matches Err(JsonMergeError::ParentNotObject),
        *root is Object && !parent_not_object(*root, parent_key@) ==> r == Ok::<MergeOutcome, JsonMergeError>(upsert_outcome(*root, parent_key@, leaf_key@, *value)),
{
    if !root.is_object() {
        return Err(JsonMergeError::NotObject);
    }
    match root.get(parent_key) {
        Some(x) => {
            if !x.is_object() {
                return Err(JsonMergeError::ParentNotObject);
            }
            match x.get(leaf_key) {
                Some(e) => if json_same(e, value) { Ok(MergeOutcome::AlreadyMatches) } else { Ok(MergeOutcome::Updated) },
                None => Ok(MergeOutcome::Inserted),
            }
        },
        None => Ok(MergeOutcome::Inserted),
    }
}

/// Idempotent upsert `root[parent_key][leaf_key] = value`, creating the
/// parent object when absent. `AlreadyMatches` (document unchanged) when the
/// leaf already equals `value`.
pub fn upsert_member(root: JsonValue, parent_key: &str, leaf_key: &str, value: JsonValue) -> (r: Result<(MergeOutcome, JsonValue), JsonMergeError>)
    ensures
        !(root is Object) ==> r matches Err(JsonMergeError::NotObject),
        root is Object && parent_not_object(root, parent_key@) ==> r matches Err(JsonMergeError::ParentNotObject),
        root is Object && !parent_not_object(root, parent_key@) ==> (r matches Ok((o, doc)) && o == upsert_outcome(root, parent_key@, leaf_key@, value)
            && (o is AlreadyMatches ==> doc == root)
            && (!(o is AlreadyMatches) ==> upserted(root, doc, parent_key@, leaf_key@, value))),
{
    let outcome = match outcome_for(&root, parent_key, leaf_key, &value) {
        Ok(o) => o,
        Err(e) => return Err(e),
    };
    if let MergeOutcome::AlreadyMatches = outcome {
        return Ok((outcome, root));
    }
    let ghost r0 = root;
    match root {
        JsonValue::Object(mut m) => {
            let ghost m0 = m@;
            proof {
                lemma_find_key_bounds(m0, parent_key@);
            }
            match position_of(&m, parent_key) {
                Some(i) => {
                    let (pk, pv) = m.remove(i);
                    match pv {
                        JsonValue::Object(mut pm) => {
                            let ghost pm0 = pm@;
                            let lk = owned(leaf_key);
                            let ghost glk = lk;
                            let ghost gv = value;
                            set_member(&mut pm, lk, value);
                            let ghost np = JsonValue::Object(pm);
                            m.insert(i, (pk, JsonValue::Object(pm)));
                            proof {
                                assert(m@ =~= m0.update(i as int, (pk, np)));
                                lemma_find_key_update(m0, i as int, (pk, np), parent_key@);
                                lemma_with_member(pm0, glk, gv, leaf_key@);
                                assert forall|k: Seq<char>| k != leaf_key@ implies #[trigger] lookup2(JsonValue::Object(m), parent_key@, k) == lookup2(r0, parent_key@, k) by {
                                    lemma_with_member(pm0, glk, gv, k);
                                    lemma_find_key_bounds(pm0, k);
                                }
                                assert forall|k: Seq<char>| k != parent_key@ implies #[trigger] member(JsonValue::Object(m), k) == member(r0, k) by {
                                    lemma_find_key_update(m0, i as int, (pk, np), k);
                                    lemma_find_key_bounds(m0, k);
                                }
                            }
                            Ok((outcome, JsonValue::Object(m)))
                        },
                        _ => Err(JsonMergeError::ParentNotObject),
                    }
                },
                None => {
                    let mut pm: Vec<(String, JsonValue)> = Vec::new();
                    let lk = owned(leaf_key);
                    let ghost gv = value;
                    pm.push((lk, value));
                    let pk = owned(parent_key);
                    let ghost np = JsonValue::Object(pm);
                    let ghost gpk = pk;
                    m.push((pk, JsonValue::Object(pm)));
                    proof {
                        lemma_find_key_push(m0, (gpk, np), parent_key@);
                        assert(pm@.len() == 1);
                        assert(pm@.drop_last().len() == 0);
                        assert forall|k: Seq<char>| k != leaf_key@ implies #[trigger] lookup2(JsonValue::Object(m), parent_key@, k) == lookup2(r0, parent_key@, k) by {
                            lemma_find_key_push(pm@.drop_last(), pm@[0], k);
                            assert(pm@.drop_last().push(pm@[0]) =~= pm@);
                        }
                        lemma_find_key_push(pm@.drop_last(), pm@[0], leaf_key@);
                        assert(pm@.drop_last().push(pm@[0]) =~= pm@);
                        assert forall|k: Seq<char>| k != parent_key@ implies #[trigger] member(JsonValue::Object(m), k) == member(r0, k) by {
                            lemma_find_key_push(m0, (gpk, np), k);
                            lemma_find_key_bounds(m0, k);
                        }
                    }
                    Ok((outcome, JsonValue::Object(m)))
                },
            }
        },
        _ => Err(JsonMergeError::NotObject),
    }
}

/// Symmetric remove of `root[parent_key][leaf_key]`; `NotPresent`
/// (document unchanged) when there is no such leaf.
pub fn remove_member_at(root: JsonValue, parent_key: &str, leaf_key: &str) -> (r: Result<(MergeOutcome, JsonValue), JsonMergeError>)
    ensures
        !(root is Object) ==> r matches Err(JsonMergeError::NotObject),
        root is Object && parent_not_object(root, parent_key@) ==> r matches Err(JsonMergeError::ParentNotObject),
        root is Object && !parent_not_object(root, parent_key@) && lookup2(root, parent_key@, leaf_key@) is None
            ==> r == Ok::<(MergeOutcome, JsonValue), JsonMergeError>((MergeOutcome::NotPresent, root)),
        root is Object && !parent_not_object(root, parent_key@) && lookup2(root, parent_key@, leaf_key@) is Some
            ==> (r matches Ok((MergeOutcome::Removed, doc)) && doc is Object
                && (match (member(doc, parent_key@), member(root, parent_key@)) {
                    (Some(JsonValue::Object(np)), Some(JsonValue::Object(op))) => np@ == without_member(op@, leaf_key@),
                    _ => false,
                })
                && forall|k: Seq<char>| k != parent_key@ ==> #[trigger] member(doc, k) == member(root, k)),
{
    if !root.is_object() {
        return Err(JsonMergeError::NotObject);
    }
    match root.get(parent_key) {
        Some(x) => {
            if !x.is_object() {
                return Err(JsonMergeError::ParentNotObject);
            }
            if x.get(leaf_key).is_none() {
                return Ok((MergeOutcome::NotPresent, root));
            }
        },
        None => return Ok((MergeOutcome::NotPresent, root)),
    }
    let ghost r0 = root;
    match root {
        JsonValue::Object(mut m) => {
            let ghost m0 = m@;
            proof {
                lemma_find_key_bounds(m0, parent_key@);
            }
            match position_of(&m, parent_key) {
                Some(i) => {
                    let (pk, pv) = m.remove(i);
                    match pv {
                        JsonValue::Object(mut pm) => {
                            let ghost pm0 = pm@;
                            remove_member(&mut pm, leaf_key);
                            let ghost np = JsonValue::Object(pm);
                            m.insert(i, (pk, JsonValue::Object(pm)));
                            proof {
                                assert(m@ =~= m0.update(i as int, (pk, np)));
                                lemma_find_key_update(m0, i as int, (pk, np), parent_key@);
                                assert forall|k: Seq<char>| k != parent_key@ implies #[trigger] member(JsonValue::Object(m), k) == member(r0, k) by {
                                    lemma_find_key_update(m0, i as int, (pk, np), k);
                                    lemma_find_key_bounds(m0, k);
                                }
                            }
                            Ok((MergeOutcome::Removed, JsonValue::Object(m)))
                        },
                        _ => Err(JsonMergeError::ParentNotObject),
                    }
                },
                None => Err(JsonMergeError::NotObject),
            }
        },
        _ => Err(JsonMergeError::NotObject),
    }
}


/// `new` is a fresh document holding only `{p: {l: value}}`.
pub open spec fn created(new: JsonValue, p: Seq<char>, l: Seq<char>, value: JsonValue) -> bool {
    &&& new is Object
    &&& member(new, p) matches Some(np) && np is Object
    &&& lookup2(new, p, l) == Some(value)
    &&& forall|k: Seq<char>| k != l ==> #[trigger] lookup2(new, p, k) is None
    &&& forall|k: Seq<char>| k != p ==> #[trigger] member(new, k) is None
}

/// Upsert on the text of a settings file (`None`: the file does not
/// exist). The result carries the text to write, rendered by
/// `serde_json::to_string_pretty`, or `None` when nothing changes.
pub fn upsert_user_json(existing: Option<&str>, parent_key: &str, leaf_key: &str, value: JsonValue) -> (r: Result<(MergeOutcome, Option<String>), JsonMergeError>)
    ensures
        existing is None ==> (r matches Ok((MergeOutcome::Inserted, Some(t)))
            && exists|doc: JsonValue| created(doc, parent_key@, leaf_key@, value) && t@ == #[trigger] json_pretty(doc)),
        existing matches Some(s) ==> match json_parse(s@) {
            None => r matches Err(JsonMergeError::Parse),
            Some(root) => {
                &&& (!(root is Object) ==> r matches Err(JsonMergeError::NotObject))
                &&& (root is Object && parent_not_object(root, parent_key@) ==> r matches Err(JsonMergeError::ParentNotObject))
                &&& (root is Object && !parent_not_object(root, parent_key@) ==> (r matches Ok((o, t))
                    && o == upsert_outcome(root, parent_key@, leaf_key@, value)
                    && (o is AlreadyMatches <==> t is None)
                    && (t matches Some(txt) ==> exists|doc: JsonValue| upserted(root, doc, parent_key@, leaf_key@, value) && txt@ == #[trigger] json_pretty(doc))))
            },
        },
{
    match existing {
        None => {
            let mut pm: Vec<(String, JsonValue)> = Vec::new();
            let ghost gv = value;
            pm.push((owned(leaf_key), value));
            let mut m: Vec<(String, JsonValue)> = Vec::new();
            let ghost np = JsonValue::Object(pm);
            m.push((owned(parent_key), JsonValue::Object(pm)));
            let doc = JsonValue::Object(m);
            proof {
                assert(pm@.drop_last().len() == 0);
                assert(m@.drop_last().len() == 0);
                lemma_find_key_push(pm@.drop_last(), pm@[0], leaf_key@);
                assert(pm@.drop_last().push(pm@[0]) =~= pm@);
                lemma_find_key_push(m@.drop_last(), m@[0], parent_key@);
                assert(m@.drop_last().push(m@[0]) =~= m@);
                assert forall|k: Seq<char>| k != leaf_key@ implies #[trigger] lookup2(doc, parent_key@, k) is None by {
                    lemma_find_key_push(pm@.drop_last(), pm@[0], k);
                }
                assert forall|k: Seq<char>| k != parent_key@ implies #[trigger] member(doc, k) is None by {
                    lemma_find_key_push(m@.drop_last(), m@[0], k);
                }
            }
            let t = render_json_pretty(&doc);
            Ok((MergeOutcome::Inserted, Some(t)))
        },
        Some(s) => match parse_json(s) {
            None => Err(JsonMergeError::Parse),
            Some(root) => match upsert_member(root, parent_key, leaf_key, value) {
                Err(e) => Err(e),
                Ok((o, doc)) => match o {
                    MergeOutcome::AlreadyMatches => Ok((o, None)),
                    _ => {
                        let t = render_json_pretty(&doc);
                        Ok((o, Some(t)))
                    },
                },
            },
        },
    }
}

/// Remove on the text of a settings file (`None`: the file does not
/// exist, which is `NotPresent`). The result carries the text to write, or
/// `None` when nothing changes.
pub fn remove_user_json(existing: Option<&str>, parent_key: &str, leaf_key: &str) -> (r: Result<(MergeOutcome, Option<String>), JsonMergeError>)
    ensures
        existing is None ==> r matches Ok((MergeOutcome::NotPresent, None)),
        existing matches Some(s) ==> match json_parse(s@) {
            None => r matches Err(JsonMergeError::Parse),
            Some(root) => {
                &&& (!(root is Object) ==> r matches Err(JsonMergeError::NotObject))
                &&& (root is Object && parent_not_object(root, parent_key@) ==> r matches Err(JsonMergeError::ParentNotObject))
                &&& (root is Object && !parent_not_object(root, parent_key@) && lookup2(root, parent_key@, leaf_key@) is None
                    ==> r matches Ok((MergeOutcome::NotPresent, None)))
                &&& (root is Object && !parent_not_object(root, parent_key@) && lookup2(root, parent_key@, leaf_key@) is Some
                    ==> (r matches Ok((MergeOutcome::Removed, Some(txt))) && exists|doc: JsonValue| #[trigger] json_pretty(doc) == txt@
                        && (match (member(doc, parent_key@), member(root, parent_key@)) {
                            (Some(JsonValue::Object(np)), Some(JsonValue::Object(op))) => np@ == without_member(op@, leaf_key@),
                            _ => false,
                        })
                        && forall|k: Seq<char>| k != parent_key@ ==> #[trigger] member(doc, k) == member(root, k)))
            },
        },
{
    match existing {
        None => Ok((MergeOutcome::NotPresent, None)),
        Some(s) => match parse_json(s) {
            None => Err(JsonMergeError::Parse),
            Some(root) => match remove_member_at(root, parent_key, leaf_key) {
                Err(e) => Err(e),
                Ok((o, doc)) => match o {
                    MergeOutcome::Removed => {
                        let t = render_json_pretty(&doc);
                        Ok((o, Some(t)))
                    },
                    _ => Ok((o, None)),
                },
            },
        },
    }
}


/// Upserting the value that was just written reports `AlreadyMatches`:
/// the upsert is idempotent.
pub proof fn law_upsert_idempotent(old: JsonValue, new: JsonValue, p: Seq<char>, l: Seq<char>, value: JsonValue)
    requires
        upserted(old, new, p, l, value),
    ensures
        upsert_outcome(new, p, l, value) is AlreadyMatches,
        !parent_not_object(new, p),
{
    lemma_json_eqv_refl(value);
}

/// A read after an upsert gives back the value written, and every other
/// leaf reads as before.
pub proof fn law_read_after_upsert(old: JsonValue, new: JsonValue, p: Seq<char>, l: Seq<char>, value: JsonValue, q: Seq<char>, k: Seq<char>)
    requires
        upserted(old, new, p, l, value),
    ensures
        lookup2(new, p, l) == Some(value),
        (q != p || k != l) ==> lookup2(new, q, k) == lookup2(old, q, k),
{
    if q != p {
        assert(member(new, q) == member(old, q));
    } else if k != l {
        assert(lookup2(new, p, k) == lookup2(old, p, k));
    }
}

} // verus!
