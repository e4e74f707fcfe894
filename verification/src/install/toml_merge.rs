//! Structural merge of one sub-table of a TOML configuration document:
//! `[parent_key.leaf_key]`, every other section left as it was.

use vstd::prelude::*;
use crate::members::{lemma_find_key_bounds, lemma_find_key_push, lemma_find_key_update, lemma_with_member, position_of, remove_member, set_member, without_member};
use crate::text::{opt_text, owned, trim, trim_ws};
use crate::toml_tree::{entry, lemma_toml_eqv_refl, parse_toml, render_toml, toml_eqv, toml_parse, toml_render, toml_same, TomlValue};

verus! {

#[derive(Clone, Copy, Debug, PartialEq, Eq, Structural)]
pub enum TomlMergeOutcome {
    Inserted,
    Updated,
    AlreadyMatches,
    Removed,
    NotPresent,
}

/// Why a TOML configuration document could not be merged.
#[derive(Clone, Copy, Debug, PartialEq, Eq, Structural)]
pub enum TomlMergeError {
    /// The text is not a well-formed TOML document.
    Parse,
    /// `root[parent_key]` exists and is not a table.
    TableExpected,
    /// `toml::to_string` refused the merged document.
    Serialize,
}

/// `root[p][l]`, when both levels exist.
pub open spec fn entry2(root: TomlValue, p: Seq<char>, l: Seq<char>) -> Option<TomlValue> {
    match entry(root, p) {
        Some(x) => entry(x, l),
        None => None,
    }
}

/// `root[p]` exists and is not a table.
pub open spec fn parent_not_table(root: TomlValue, p: Seq<char>) -> bool {
    entry(root, p) matches Some(x) && !(x is Table)
}

/// The outcome an upsert of table `value` at `[p.l]` reports.
pub open spec fn table_upsert_outcome(root: TomlValue, p: Seq<char>, l: Seq<char>, value: TomlValue) -> TomlMergeOutcome {
    match entry2(root, p, l) {
        Some(e) => if e is Table && toml_eqv(e, value) { TomlMergeOutcome::AlreadyMatches } else { TomlMergeOutcome::Updated },
        None => TomlMergeOutcome::Inserted,
    }
}

/// `new` is `old` with `[p.l]` set to `value`; every other entry, at either
/// level, reads as before.
pub open spec fn table_upserted(old: TomlValue, new: TomlValue, p: Seq<char>, l: Seq<char>, value: TomlValue) -> bool {
    &&& new is Table
    &&& entry(new, p) matches Some(np) && np is Table
    &&& entry2(new, p, l) == Some(value)
    &&& forall|k: Seq<char>| k != l ==> #[trigger] entry2(new, p, k) == entry2(old, p, k)
    &&& forall|k: Seq<char>| k != p ==> #[trigger] entry(new, k) == entry(old, k)
}

/// `text` is empty or whitespace only: an empty document.
pub open spec fn blank(text: Seq<char>) -> bool {
    trim_ws(text).len() == 0
}

/// The outcome an upsert would report, without performing it.
pub fn table_outcome(root: &TomlValue, parent_key: &str, leaf_key: &str, value: &TomlValue) -> (r: Result<TomlMergeOutcome, TomlMergeError>)
    requires
        root is Table,
    ensures
        parent_not_table(*root, parent_key@) ==> r matches Err(TomlMergeError::TableExpected),
        !parent_not_table(*root, parent_key@) ==> r == Ok::<TomlMergeOutcome, TomlMergeError>(table_upsert_outcome(*root, parent_key@, leaf_key@, *value)),
{
    match root.get(parent_key) {
        Some(x) => {
            if !x.is_table() {
                return Err(TomlMergeError::TableExpected);
            }
            match x.get(leaf_key) {
                Some(e) => if e.is_table() && toml_same(e, value) {
                    Ok(TomlMergeOutcome::AlreadyMatches)
                } else {
                    Ok(TomlMergeOutcome::Updated)
                },
                None => Ok(TomlMergeOutcome::Inserted),
            }
        },
        None => Ok(TomlMergeOutcome::Inserted),
    }
}

/// Idempotent upsert of the `[parent_key.leaf_key]` table, creating the
/// parent table when absent. `AlreadyMatches` (document unchanged) when the
/// table already holds exactly `value`.
pub fn upsert_table(root: TomlValue, parent_key: &str, leaf_key: &str, value: TomlValue) -> (r: Result<(TomlMergeOutcome, TomlValue), TomlMergeError>)
    requires
        root is Table,
        value is Table,
    ensures
        parent_not_table(root, parent_key@) ==> r matches Err(TomlMergeError::TableExpected),
        !parent_not_table(root, parent_key@) ==> (r matches Ok((o, doc)) && o == table_upsert_outcome(root, parent_key@, leaf_key@, value)
            && (o is AlreadyMatches ==> doc == root)
            && (!(o is AlreadyMatches) ==> table_upserted(root, doc, parent_key@, leaf_key@, value))),
{
    let outcome = match table_outcome(&root, parent_key, leaf_key, &value) {
        Ok(o) => o,
        Err(e) => return Err(e),
    };
    if let TomlMergeOutcome::AlreadyMatches = outcome {
        return Ok((outcome, root));
    }
    let ghost r0 = root;
    match root {
        TomlValue::Table(mut m) => {
            let ghost m0 = m@;
            proof {
                lemma_find_key_bounds(m0, parent_key@);
            }
            match position_of(&m, parent_key) {
                Some(i) => {
                    let (pk, pv) = m.remove(i);
                    match pv {
                        TomlValue::Table(mut pm) => {
                            let ghost pm0 = pm@;
                            let lk = owned(leaf_key);
                            let ghost glk = lk;
                            let ghost gv = value;
                            set_member(&mut pm, lk, value);
                            let ghost np = TomlValue::Table(pm);
                            m.insert(i, (pk, TomlValue::Table(pm)));
                            proof {
                                assert(m@ =~= m0.update(i as int, (pk, np)));
                                lemma_find_key_update(m0, i as int, (pk, np), parent_key@);
                                lemma_with_member(pm0, glk, gv, leaf_key@);
                                assert forall|k: Seq<char>| k != leaf_key@ implies #[trigger] entry2(TomlValue::Table(m), parent_key@, k) == entry2(r0, parent_key@, k) by {
                                    lemma_with_member(pm0, glk, gv, k);
                                    lemma_find_key_bounds(pm0, k);
                                }
                                assert forall|k: Seq<char>| k != parent_key@ implies #[trigger] entry(TomlValue::Table(m), k) == entry(r0, k) by {
                                    lemma_find_key_update(m0, i as int, (pk, np), k);
                                    lemma_find_key_bounds(m0, k);
                                }
                            }
                            Ok((outcome, TomlValue::Table(m)))
                        },
                        _ => Err(TomlMergeError::TableExpected),
                    }
                },
                None => {
                    let mut pm: Vec<(String, TomlValue)> = Vec::new();
                    let lk = owned(leaf_key);
                    pm.push((lk, value));
                    let pk = owned(parent_key);
                    let ghost np = TomlValue::Table(pm);
                    let ghost gpk = pk;
                    m.push((pk, TomlValue::Table(pm)));
                    proof {
                        lemma_find_key_push(m0, (gpk, np), parent_key@);
                        assert(pm@.drop_last().len() == 0);
                        assert(pm@.drop_last().push(pm@[0]) =~= pm@);
                        lemma_find_key_push(pm@.drop_last(), pm@[0], leaf_key@);
                        assert forall|k: Seq<char>| k != leaf_key@ implies #[trigger] entry2(TomlValue::Table(m), parent_key@, k) == entry2(r0, parent_key@, k) by {
                            lemma_find_key_push(pm@.drop_last(), pm@[0], k);
                        }
                        assert forall|k: Seq<char>| k != parent_key@ implies #[trigger] entry(TomlValue::Table(m), k) == entry(r0, k) by {
                            lemma_find_key_push(m0, (gpk, np), k);
                            lemma_find_key_bounds(m0, k);
                        }
                    }
                    Ok((outcome, TomlValue::Table(m)))
                },
            }
        },
        _ => Err(TomlMergeError::TableExpected),
    }
}

/// What removing `[p.l]` does to the root's entries: the parent loses
/// its entry `l` (its first one), and a parent left empty is dropped.
pub open spec fn table_removed(old: TomlValue, new: TomlValue, p: Seq<char>, l: Seq<char>) -> bool {
    &&& new is Table
    &&& forall|k: Seq<char>| k != p ==> #[trigger] entry(new, k) == entry(old, k)
    &&& match (entry(old, p), old, new) {
        (Some(TomlValue::Table(op)), TomlValue::Table(om), TomlValue::Table(nm)) => if without_member(op@, l).len() == 0 {
            nm@ == without_member(om@, p)
        } else {
            entry(new, p) matches Some(TomlValue::Table(np)) && np@ == without_member(op@, l)
        },
        _ => false,
    }
}

/// Removes the `[parent_key.leaf_key]` table; `NotPresent` (document
/// unchanged) when there is none. A parent table left empty goes too.
pub fn remove_table(root: TomlValue, parent_key: &str, leaf_key: &str) -> (r: Result<(TomlMergeOutcome, TomlValue), TomlMergeError>)
    requires
        root is Table,
    ensures
        parent_not_table(root, parent_key@) ==> r matches Err(TomlMergeError::TableExpected),
        !parent_not_table(root, parent_key@) && entry2(root, parent_key@, leaf_key@) is None
            ==> r == Ok::<(TomlMergeOutcome, TomlValue), TomlMergeError>((TomlMergeOutcome::NotPresent, root)),
        !parent_not_table(root, parent_key@) && entry2(root, parent_key@, leaf_key@) is Some
            ==> (r matches Ok((TomlMergeOutcome::Removed, doc)) && table_removed(root, doc, parent_key@, leaf_key@)),
{
    match root.get(parent_key) {
        Some(x) => {
            if !x.is_table() {
                return Err(TomlMergeError::TableExpected);
            }
            if x.get(leaf_key).is_none() {
                return Ok((TomlMergeOutcome::NotPresent, root));
            }
        },
        None => return Ok((TomlMergeOutcome::NotPresent, root)),
    }
    let ghost r0 = root;
    match root {
        TomlValue::Table(mut m) => {
            let ghost m0 = m@;
            proof {
                lemma_find_key_bounds(m0, parent_key@);
            }
            match position_of(&m, parent_key) {
                Some(i) => {
                    let (pk, pv) = m.remove(i);
                    match pv {
                        TomlValue::Table(mut pm) => {
                            remove_member(&mut pm, leaf_key);
                            if pm.len() == 0 {
                                proof {
                                    assert forall|k: Seq<char>| k != parent_key@ implies #[trigger] entry(TomlValue::Table(m), k) == entry(r0, k) by {
                                        lemma_find_key_bounds(m0, k);
                                        crate::members::lemma_without_member(m0, parent_key@, k);
                                        assert(m@ == without_member(m0, parent_key@));
                                    }
                                    assert(m@ == without_member(m0, parent_key@));
                                }
                                Ok((TomlMergeOutcome::Removed, TomlValue::Table(m)))
                            } else {
                                let ghost np = TomlValue::Table(pm);
                                m.insert(i, (pk, TomlValue::Table(pm)));
                                proof {
                                    assert(m@ =~= m0.update(i as int, (pk, np)));
                                    lemma_find_key_update(m0, i as int, (pk, np), parent_key@);
                                    assert forall|k: Seq<char>| k != parent_key@ implies #[trigger] entry(TomlValue::Table(m), k) == entry(r0, k) by {
                                        lemma_find_key_update(m0, i as int, (pk, np), k);
                                        lemma_find_key_bounds(m0, k);
                                    }
                                }
                                Ok((TomlMergeOutcome::Removed, TomlValue::Table(m)))
                            }
                        },
                        _ => Err(TomlMergeError::TableExpected),
                    }
                },
                None => Err(TomlMergeError::TableExpected),
            }
        },
        _ => Err(TomlMergeError::TableExpected),
    }
}


/// `new` is a fresh document holding only the `[p.l]` table `value`.
pub open spec fn table_created(new: TomlValue, p: Seq<char>, l: Seq<char>, value: TomlValue) -> bool {
    &&& new is Table
    &&& entry(new, p) matches Some(np) && np is Table
    &&& entry2(new, p, l) == Some(value)
    &&& forall|k: Seq<char>| k != l ==> #[trigger] entry2(new, p, k) is None
    &&& forall|k: Seq<char>| k != p ==> #[trigger] entry(new, k) is None
}

fn fresh_document(parent_key: &str, leaf_key: &str, value: TomlValue) -> (r: TomlValue)
    ensures
        table_created(r, parent_key@, leaf_key@, value),
{
    let mut pm: Vec<(String, TomlValue)> = Vec::new();
    pm.push((owned(leaf_key), value));
    let mut m: Vec<(String, TomlValue)> = Vec::new();
    m.push((owned(parent_key), TomlValue::Table(pm)));
    let doc = TomlValue::Table(m);
    proof {
        assert(pm@.drop_last().len() == 0);
        assert(m@.drop_last().len() == 0);
        lemma_find_key_push(pm@.drop_last(), pm@[0], leaf_key@);
        assert(pm@.drop_last().push(pm@[0]) =~= pm@);
        lemma_find_key_push(m@.drop_last(), m@[0], parent_key@);
        assert(m@.drop_last().push(m@[0]) =~= m@);
        assert forall|k: Seq<char>| k != leaf_key@ implies #[trigger] entry2(doc, parent_key@, k) is None by {
            lemma_find_key_push(pm@.drop_last(), pm@[0], k);
        }
        assert forall|k: Seq<char>| k != parent_key@ implies #[trigger] entry(doc, k) is None by {
            lemma_find_key_push(m@.drop_last(), m@[0], k);
        }
    }
    doc
}

/// What upserting the `[p.l]` table `value` gives on the text of a TOML
/// file (`None`: the file does not exist; a blank file is an empty
/// document): the outcome, and the text to write or `None` when nothing
/// changes.
pub open spec fn table_upsert_result(existing: Option<Seq<char>>, p: Seq<char>, l: Seq<char>, value: TomlValue, r: Result<(TomlMergeOutcome, Option<String>), TomlMergeError>) -> bool {
    &&& (existing is None || (existing matches Some(s) && blank(s))) ==> match r {
            Ok((o, t)) => o is Inserted && exists|doc: TomlValue| table_created(doc, p, l, value)
                && #[trigger] toml_render(doc) == (match t { Some(x) => Some(x@), None => None }) && t is Some,
            Err(e) => e is Serialize && exists|doc: TomlValue| table_created(doc, p, l, value) && #[trigger] toml_render(doc) is None,
        }
    &&& existing matches Some(s) ==> (!blank(s) ==> match toml_parse(s) {
            None => r matches Err(TomlMergeError::Parse),
            Some(root) => {
                &&& (parent_not_table(root, p) ==> r matches Err(TomlMergeError::TableExpected))
                &&& (!parent_not_table(root, p) ==> match r {
                    Ok((o, t)) => o == table_upsert_outcome(root, p, l, value)
                        && (o is AlreadyMatches <==> t is None)
                        && (t matches Some(txt) ==> exists|doc: TomlValue| table_upserted(root, doc, p, l, value)
                            && #[trigger] toml_render(doc) == Some(txt@)),
                    Err(e) => e is Serialize && table_upsert_outcome(root, p, l, value) != TomlMergeOutcome::AlreadyMatches
                        && exists|doc: TomlValue| table_upserted(root, doc, p, l, value) && #[trigger] toml_render(doc) is None,
                })
            },
        })
}

/// Upsert of the `[parent_key.leaf_key]` table on the text of a TOML file
/// (`None`: the file does not exist; a blank file is an empty document).
/// The result carries the text to write, rendered by `toml::to_string`, or
/// `None` when nothing changes.
pub fn upsert_codex_table(existing: Option<&str>, parent_key: &str, leaf_key: &str, value: TomlValue) -> (r: Result<(TomlMergeOutcome, Option<String>), TomlMergeError>)
    requires
        value is Table,
    ensures
        table_upsert_result(opt_text(existing), parent_key@, leaf_key@, value, r),
{
    let is_blank = match existing {
        None => true,
        Some(s) => trim(s).as_str().is_empty(),
    };
    if is_blank {
        let doc = fresh_document(parent_key, leaf_key, value);
        return match render_toml(&doc) {
            Some(t) => Ok((TomlMergeOutcome::Inserted, Some(t))),
            None => Err(TomlMergeError::Serialize),
        };
    }
    let s = match existing {
        Some(s) => s,
        None => return Err(TomlMergeError::Parse),
    };
    let root = match parse_toml(s) {
        Some(root) => root,
        None => return Err(TomlMergeError::Parse),
    };
    match upsert_table(root, parent_key, leaf_key, value) {
        Err(e) => Err(e),
        Ok((o, doc)) => match o {
            TomlMergeOutcome::AlreadyMatches => Ok((o, None)),
            _ => match render_toml(&doc) {
                Some(t) => Ok((o, Some(t))),
                None => Err(TomlMergeError::Serialize),
            },
        },
    }
}

/// Removal of the `[parent_key.leaf_key]` table on the text of a TOML file
/// (`None`: the file does not exist, which is `NotPresent`). The result
/// carries the text to write, or `None` when nothing changes.
pub fn remove_codex_table(existing: Option<&str>, parent_key: &str, leaf_key: &str) -> (r: Result<(TomlMergeOutcome, Option<String>), TomlMergeError>)
    ensures
        (existing is None || (existing matches Some(s) && blank(s@))) ==> r matches Ok((TomlMergeOutcome::NotPresent, None)),
        existing matches Some(s) ==> !blank(s@) ==> match toml_parse(s@) {
            None => r matches Err(TomlMergeError::Parse),
            Some(root) => {
                &&& (parent_not_table(root, parent_key@) ==> r matches Err(TomlMergeError::TableExpected))
                &&& (!parent_not_table(root, parent_key@) && entry2(root, parent_key@, leaf_key@) is None
                    ==> r matches Ok((TomlMergeOutcome::NotPresent, None)))
                &&& (!parent_not_table(root, parent_key@) && entry2(root, parent_key@, leaf_key@) is Some ==> match r {
                    Ok((o, t)) => o is Removed && (t matches Some(txt) && exists|doc: TomlValue| table_removed(root, doc, parent_key@, leaf_key@)
                        && #[trigger] toml_render(doc) == Some(txt@)),
                    Err(e) => e is Serialize && exists|doc: TomlValue| table_removed(root, doc, parent_key@, leaf_key@)
                        && #[trigger] toml_render(doc) is None,
                })
            },
        },
{
    let s = match existing {
        None => return Ok((TomlMergeOutcome::NotPresent, None)),
        Some(s) => s,
    };
    if trim(s).as_str().is_empty() {
        return Ok((TomlMergeOutcome::NotPresent, None));
    }
    let root = match parse_toml(s) {
        Some(root) => root,
        None => return Err(TomlMergeError::Parse),
    };
    match remove_table(root, parent_key, leaf_key) {
        Err(e) => Err(e),
        Ok((o, doc)) => match o {
            TomlMergeOutcome::Removed => match render_toml(&doc) {
                Some(t) => Ok((o, Some(t))),
                None => Err(TomlMergeError::Serialize),
            },
            _ => Ok((o, None)),
        },
    }
}

/// Upserting the table that was just written reports `AlreadyMatches`.
pub proof fn law_table_upsert_idempotent(old: TomlValue, new: TomlValue, p: Seq<char>, l: Seq<char>, value: TomlValue)
    requires
        table_upserted(old, new, p, l, value),
        value is Table,
    ensures
        table_upsert_outcome(new, p, l, value) is AlreadyMatches,
        !parent_not_table(new, p),
{
    lemma_toml_eqv_refl(value);
}


/// Idempotent upsert of the `[outer.parent."leaf"]` table (such as
/// `[hooks.state."<key>"]`), creating the outer and parent tables when
/// absent; every other entry at every level reads as before.
pub fn upsert_nested_table(root: TomlValue, outer: &str, parent_key: &str, leaf_key: &str, value: TomlValue) -> (r: Result<(TomlMergeOutcome, TomlValue), TomlMergeError>)
    requires
        root is Table,
        value is Table,
    ensures
        entry(root, outer@) matches Some(x) && !(x is Table) ==> r matches Err(TomlMergeError::TableExpected),
        entry(root, outer@) is None ==> (r matches Ok((o, doc)) && o is Inserted && doc is Table
            && (entry(doc, outer@) matches Some(inner) && table_created(inner, parent_key@, leaf_key@, value))
            && forall|k: Seq<char>| k != outer@ ==> #[trigger] entry(doc, k) == entry(root, k)),
        entry(root, outer@) matches Some(inner) ==> inner is Table ==> {
            &&& (parent_not_table(inner, parent_key@) ==> r matches Err(TomlMergeError::TableExpected))
            &&& (!parent_not_table(inner, parent_key@) ==> (r matches Ok((o, doc))
                && o == table_upsert_outcome(inner, parent_key@, leaf_key@, value)
                && (o is AlreadyMatches ==> doc == root)
                && (!(o is AlreadyMatches) ==> doc is Table
                    && (entry(doc, outer@) matches Some(ni) && table_upserted(inner, ni, parent_key@, leaf_key@, value))
                    && forall|k: Seq<char>| k != outer@ ==> #[trigger] entry(doc, k) == entry(root, k))))
        },
{
    match root.get(outer) {
        Some(x) => {
            if !x.is_table() {
                return Err(TomlMergeError::TableExpected);
            }
            match table_outcome(x, parent_key, leaf_key, &value) {
                Err(e) => return Err(e),
                Ok(TomlMergeOutcome::AlreadyMatches) => return Ok((TomlMergeOutcome::AlreadyMatches, root)),
                Ok(_) => {},
            }
        },
        None => {},
    }
    let ghost r0 = root;
    match root {
        TomlValue::Table(mut m) => {
            let ghost m0 = m@;
            proof {
                lemma_find_key_bounds(m0, outer@);
            }
            match position_of(&m, outer) {
                Some(i) => {
                    let (ok, ov) = m.remove(i);
                    let ghost inner0 = ov;
                    match upsert_table(ov, parent_key, leaf_key, value) {
                        Err(e) => Err(e),
                        Ok((o, nv)) => {
                            let ghost gnv = nv;
                            m.insert(i, (ok, nv));
                            proof {
                                assert(m@ =~= m0.update(i as int, (ok, gnv)));
                                lemma_find_key_update(m0, i as int, (ok, gnv), outer@);
                                assert forall|k: Seq<char>| k != outer@ implies #[trigger] entry(TomlValue::Table(m), k) == entry(r0, k) by {
                                    lemma_find_key_update(m0, i as int, (ok, gnv), k);
                                    lemma_find_key_bounds(m0, k);
                                }
                            }
                            Ok((o, TomlValue::Table(m)))
                        },
                    }
                },
                None => {
                    let fresh = fresh_document(parent_key, leaf_key, value);
                    let ghost gf = fresh;
                    let ok = owned(outer);
                    let ghost gk = ok;
                    m.push((ok, fresh));
                    proof {
                        lemma_find_key_push(m0, (gk, gf), outer@);
                        assert forall|k: Seq<char>| k != outer@ implies #[trigger] entry(TomlValue::Table(m), k) == entry(r0, k) by {
                            lemma_find_key_push(m0, (gk, gf), k);
                            lemma_find_key_bounds(m0, k);
                        }
                    }
                    Ok((TomlMergeOutcome::Inserted, TomlValue::Table(m)))
                },
            }
        },
        _ => Err(TomlMergeError::TableExpected),
    }
}


/// The nested upsert on the text of a TOML file (`None`: no file; a blank
/// file is an empty document). The result carries the text to write, or
/// `None` when nothing changes.
pub fn upsert_nested_codex_table(existing: Option<&str>, outer: &str, parent_key: &str, leaf_key: &str, value: TomlValue) -> (r: Result<(TomlMergeOutcome, Option<String>), TomlMergeError>)
    requires
        value is Table,
    ensures
        nested_upsert_result(opt_text(existing), outer@, parent_key@, leaf_key@, value, r),
{
    let root = match existing {
        None => TomlValue::Table(Vec::new()),
        Some(s) => {
            if trim(s).as_str().is_empty() {
                TomlValue::Table(Vec::new())
            } else {
                match parse_toml(s) {
                    Some(r) => r,
                    None => return Err(TomlMergeError::Parse),
                }
            }
        },
    };
    let ghost groot = root;
    proof {
        assert(text_document(opt_text(existing), groot));
    }
    match upsert_nested_table(root, outer, parent_key, leaf_key, value) {
        Err(e) => Err(e),
        Ok((o, doc)) => match o {
            TomlMergeOutcome::AlreadyMatches => Ok((o, None)),
            _ => {
                let ghost gdoc = doc;
                proof {
                    assert(nested_upserted(groot, gdoc, outer@, parent_key@, leaf_key@, value));
                }
                match render_toml(&doc) {
                    Some(t) => Ok((o, Some(t))),
                    None => Err(TomlMergeError::Serialize),
                }
            },
        },
    }
}

/// `root` is the document a TOML file's text holds: an empty table for no
/// file or a blank one, else what the text parses into.
pub open spec fn text_document(existing: Option<Seq<char>>, root: TomlValue) -> bool {
    match existing {
        Some(s) => if blank(s) { root matches TomlValue::Table(m) && m@.len() == 0 } else { toml_parse(s) == Some(root) },
        None => root matches TomlValue::Table(m) && m@.len() == 0,
    }
}

/// The text is neither blank nor a TOML document.
pub open spec fn unparsable(existing: Option<Seq<char>>) -> bool {
    existing matches Some(s) && !blank(s) && toml_parse(s) is None
}

/// `root[outer]` is not a table, or it is one whose `[parent]` entry is
/// not a table.
pub open spec fn nested_conflict(root: TomlValue, outer: Seq<char>, p: Seq<char>) -> bool {
    entry(root, outer) matches Some(x) && (!(x is Table) || parent_not_table(x, p))
}

/// The outcome the nested upsert of `[outer.p."l"]` reports.
pub open spec fn nested_outcome(root: TomlValue, outer: Seq<char>, p: Seq<char>, l: Seq<char>, value: TomlValue) -> TomlMergeOutcome {
    match entry(root, outer) {
        Some(inner) => table_upsert_outcome(inner, p, l, value),
        None => TomlMergeOutcome::Inserted,
    }
}

/// `doc` is `root` with `[outer.p."l"]` set to `value`: the outer table is
/// created, or upserted at `[p.l]`, and every other entry at every level
/// reads as before.
pub open spec fn nested_upserted(root: TomlValue, doc: TomlValue, outer: Seq<char>, p: Seq<char>, l: Seq<char>, value: TomlValue) -> bool {
    &&& doc is Table
    &&& entry3_of(doc, outer, p, l) == Some(value)
    &&& entry(doc, outer) matches Some(ni) && match entry(root, outer) {
            Some(inner) => table_upserted(inner, ni, p, l, value),
            None => table_created(ni, p, l, value),
        }
    &&& forall|k: Seq<char>| k != outer ==> #[trigger] entry(doc, k) == entry(root, k)
}

/// What the nested upsert gives on the text of a TOML file: `Parse` for
/// text that is neither blank nor TOML; `TableExpected` on a conflicting
/// entry; otherwise the outcome, and the rendering of the merged document,
/// or `None` exactly when nothing changes (`Serialize` when the rendering
/// is refused).
pub open spec fn nested_upsert_result(existing: Option<Seq<char>>, outer: Seq<char>, p: Seq<char>, l: Seq<char>, value: TomlValue, r: Result<(TomlMergeOutcome, Option<String>), TomlMergeError>) -> bool {
    &&& unparsable(existing) ==> (r matches Err(TomlMergeError::Parse))
    &&& !unparsable(existing) ==> exists|root: TomlValue| #[trigger] text_document(existing, root) && {
        &&& (nested_conflict(root, outer, p) ==> (r matches Err(TomlMergeError::TableExpected)))
        &&& (!nested_conflict(root, outer, p) ==> match r {
            Ok((o, t)) => o == nested_outcome(root, outer, p, l, value)
                && (o is AlreadyMatches <==> t is None)
                && (t matches Some(txt) ==> exists|doc: TomlValue| nested_upserted(root, doc, outer, p, l, value)
                    && #[trigger] toml_render(doc) == Some(txt@)),
            Err(e) => e is Serialize && nested_outcome(root, outer, p, l, value) != TomlMergeOutcome::AlreadyMatches
                && exists|doc: TomlValue| nested_upserted(root, doc, outer, p, l, value) && #[trigger] toml_render(doc) is None,
        })
    }
}

/// `root[a][b][c]`.
pub open spec fn entry3_of(root: TomlValue, a: Seq<char>, b: Seq<char>, c: Seq<char>) -> Option<TomlValue> {
    match entry(root, a) {
        Some(x) => entry2(x, b, c),
        None => None,
    }
}

} // verus!
