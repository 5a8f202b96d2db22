//! Constitution amendments: signed changes to the invariant tests and the
//! benchmark dimensions that every candidate version is judged by.

use crate::crypto::{
    hex_decode, hex_decoded, hex_encode, hex_encoded, hex_error, hmac_sha256, hmac_tag, hmac_verify,
    is_hex, law_hex_round_trip,
};
use crate::json::{
    denotes, distinct_keys, entries_map, entry_trees, json_compact, json_parse, json_pretty,
    lemma_entries_map, lemma_tree, list_trees, put_entry, reads_back, Json, JsonTree,
};
use crate::paths::{join, joined};
use crate::split::{lines, lines_of, texts, trim, trimmed};
use crate::text::{dec, decimal, pad_left, padded, str_eq};
use vstd::prelude::*;
use vstd::string::*;
use vstd::utf8::encode_utf8;

verus! {

/// One approved amendment, as it is kept in the amendment log.
pub struct AmendmentRecord {
    pub id: String,
    pub timestamp: u64,
    pub amendment_type: String,
    pub target_file: String,
    pub description: String,
    pub changes: Json,
}

/// Why an amendment was not carried out.
pub enum AmendmentError {
    /// The proposal was refused, with the reason.
    Refused(String),
    /// Thresholds cannot be stored: the document is neither an object nor null.
    NotAnObject,
}

/// What happens to the entry list that an amendment changes.
#[derive(Clone, Copy, PartialEq, Eq, Structural)]
pub enum ListEdit {
    Append,
    Remove,
    Modify,
}

/// The object `a` with the entries of `b` written over it.
pub open spec fn merged(a: JsonTree, b: JsonTree) -> JsonTree {
    match (a, b) {
        (JsonTree::Object(x), JsonTree::Object(y)) => JsonTree::Object(x.union_prefer_right(y)),
        _ => a,
    }
}

/// Whether an entry is known under the given key.
pub open spec fn is_entry(t: JsonTree, field: Seq<char>, key: Seq<char>) -> bool {
    t.get_text(field) == Some(key)
}

/// The index of the first entry under a key, or the length of the list.
pub open spec fn entry_at(list: Seq<JsonTree>, field: Seq<char>, key: Seq<char>) -> int
    decreases list.len(),
{
    if list.len() == 0 || is_entry(list[0], field, key) {
        0
    } else {
        1 + entry_at(list.drop_first(), field, key)
    }
}

/// The entries that are not under a key, in their order.
pub open spec fn entries_without(
    list: Seq<JsonTree>,
    field: Seq<char>,
    key: Seq<char>,
) -> Seq<JsonTree> {
    list.filter(|t: JsonTree| !is_entry(t, field, key))
}

/// The list after an edit, or why the edit is refused.
pub open spec fn edited(
    list: Seq<JsonTree>,
    edit: ListEdit,
    amendment_type: Seq<char>,
    field: Seq<char>,
    noun: Seq<char>,
    changes: JsonTree,
) -> Result<Seq<JsonTree>, Seq<char>> {
    match changes.get_text(field) {
        None => Err(amendment_type + " requires '"@ + field + "' field"@),
        Some(key) => {
            let at = entry_at(list, field, key);
            match edit {
                ListEdit::Append => if at < list.len() {
                    Err(noun + " '"@ + key + "' already exists"@)
                } else {
                    Ok(list.push(changes))
                },
                ListEdit::Remove => if at < list.len() {
                    Ok(entries_without(list, field, key))
                } else {
                    Err(noun + " '"@ + key + "' not found"@)
                },
                ListEdit::Modify => if at < list.len() {
                    Ok(list.update(at, merged(list[at], changes)))
                } else {
                    Err(noun + " '"@ + key + "' not found"@)
                },
            }
        },
    }
}

/// The edit of the test list that an amendment type names.
pub open spec fn test_edit(amendment_type: Seq<char>) -> Option<ListEdit> {
    if amendment_type == "add_test"@ {
        Some(ListEdit::Append)
    } else if amendment_type == "remove_test"@ {
        Some(ListEdit::Remove)
    } else if amendment_type == "modify_test"@ {
        Some(ListEdit::Modify)
    } else {
        None
    }
}

/// The edit of the dimension list that an amendment type names.
pub open spec fn dimension_edit(amendment_type: Seq<char>) -> Option<ListEdit> {
    if amendment_type == "add_dimension"@ {
        Some(ListEdit::Append)
    } else if amendment_type == "remove_dimension"@ {
        Some(ListEdit::Remove)
    } else if amendment_type == "modify_dimension"@ {
        Some(ListEdit::Modify)
    } else {
        None
    }
}

/// The invariants document after an amendment, or why it is refused.
pub open spec fn amended_invariants(
    doc: JsonTree,
    amendment_type: Seq<char>,
    changes: JsonTree,
) -> Result<JsonTree, Seq<char>> {
    match doc.get_list("tests"@) {
        None => Err("invariants.json missing 'tests' array"@),
        Some(list) => match test_edit(amendment_type) {
            None => Err("Invalid amendment type for invariants: "@ + amendment_type),
            Some(edit) => match edited(list, edit, amendment_type, "id"@, "Test"@, changes) {
                Err(e) => Err(e),
                Ok(l) => Ok(doc.set("tests"@, JsonTree::List(l))),
            },
        },
    }
}

/// Whether a threshold can be stored in a document.
pub open spec fn takes_thresholds(doc: JsonTree) -> bool {
    doc is Object || doc is Null
}

/// The document with a field of the changes stored in it, where they have it.
pub open spec fn with_threshold(doc: JsonTree, key: Seq<char>, changes: JsonTree) -> JsonTree {
    match changes.get(key) {
        None => doc,
        Some(t) => if doc is Null {
            JsonTree::Object(Map::empty().insert(key, t))
        } else {
            doc.set(key, t)
        },
    }
}

/// The benchmarks document after an amendment, or why it is refused.
pub open spec fn amended_benchmarks(
    doc: JsonTree,
    amendment_type: Seq<char>,
    changes: JsonTree,
) -> Result<JsonTree, Seq<char>> {
    match dimension_edit(amendment_type) {
        Some(edit) => match doc.get_list("dimensions"@) {
            None => Err("benchmarks.json missing 'dimensions' array"@),
            Some(list) => match edited(
                list,
                edit,
                amendment_type,
                "name"@,
                "Dimension"@,
                changes,
            ) {
                Err(e) => Err(e),
                Ok(l) => Ok(doc.set("dimensions"@, JsonTree::List(l))),
            },
        },
        None => if amendment_type == "update_thresholds"@ {
            Ok(
                with_threshold(
                    with_threshold(doc, "overall_min"@, changes),
                    "regression_tolerance"@,
                    changes,
                ),
            )
        } else {
            Err("Invalid amendment type for benchmarks: "@ + amendment_type)
        },
    }
}

/// Whether thresholds have to be stored in a document that cannot take them.
pub open spec fn thresholds_misplaced(
    doc: JsonTree,
    amendment_type: Seq<char>,
    changes: JsonTree,
) -> bool {
    &&& amendment_type == "update_thresholds"@
    &&& changes.get("overall_min"@) is Some || changes.get("regression_tolerance"@) is Some
    &&& !takes_thresholds(doc)
}

proof fn lemma_without_step(list: Seq<JsonTree>, i: int, field: Seq<char>, key: Seq<char>)
    requires
        0 <= i < list.len(),
    ensures
        entries_without(list.take(i + 1), field, key) == if is_entry(list[i], field, key) {
            entries_without(list.take(i), field, key)
        } else {
            entries_without(list.take(i), field, key).push(list[i])
        },
{
    reveal(Seq::filter);
    assert(list.take(i + 1).drop_last() =~= list.take(i));
}

proof fn lemma_entry_at(list: Seq<JsonTree>, field: Seq<char>, key: Seq<char>, n: int)
    requires
        0 <= n <= list.len(),
        forall|i: int| 0 <= i < n ==> !is_entry(#[trigger] list[i], field, key),
        n < list.len() ==> is_entry(list[n], field, key),
    ensures
        entry_at(list, field, key) == n,
    decreases n,
{
    if n > 0 {
        assert(!is_entry(list[0], field, key));
        let d = list.drop_first();
        assert forall|i: int| 0 <= i < n - 1 implies !is_entry(#[trigger] d[i], field, key) by {
            assert(d[i] == list[i + 1]);
        }
        lemma_entry_at(d, field, key, n - 1);
    }
}

/// Whether a document is the entry under a key.
fn entry_matches(j: &Json, field: &str, key: &str) -> (b: bool)
    requires
        j.wf(),
    ensures
        b == is_entry(j.tree(), field@, key@),
{
    match j.get_str(field) {
        Some(s) => str_eq(s, key),
        None => false,
    }
}

/// Finds the first entry under a key.
fn find_entry(list: &Vec<Json>, field: &str, key: &str) -> (at: usize)
    requires
        forall|i: int| 0 <= i < list@.len() ==> (#[trigger] list@[i]).wf(),
    ensures
        at <= list@.len(),
        at == entry_at(list_trees(list@), field@, key@),
{
    let mut i: usize = 0;
    while i < list.len()
        invariant_except_break
            i <= list@.len(),
            forall|k: int| 0 <= k < list@.len() ==> (#[trigger] list@[k]).wf(),
            forall|k: int|
                0 <= k < i ==> !is_entry(#[trigger] list_trees(list@)[k], field@, key@),
        ensures
            i <= list@.len(),
            i < list@.len() ==> is_entry(list_trees(list@)[i as int], field@, key@),
            forall|k: int|
                0 <= k < i ==> !is_entry(#[trigger] list_trees(list@)[k], field@, key@),
        decreases list@.len() - i,
    {
        if entry_matches(&list[i], field, key) {
            break;
        }
        i += 1;
    }
    proof {
        lemma_entry_at(list_trees(list@), field@, key@, i as int);
    }
    i
}

/// A copy of a list of documents.
fn copy_list(list: &Vec<Json>) -> (r: Vec<Json>)
    requires
        forall|i: int| 0 <= i < list@.len() ==> (#[trigger] list@[i]).wf(),
    ensures
        forall|i: int| 0 <= i < r@.len() ==> (#[trigger] r@[i]).wf(),
        list_trees(r@) == list_trees(list@),
{
    let mut r: Vec<Json> = Vec::new();
    let mut i: usize = 0;
    while i < list.len()
        invariant
            i <= list@.len(),
            r@.len() == i,
            forall|k: int| 0 <= k < list@.len() ==> (#[trigger] list@[k]).wf(),
            forall|k: int| 0 <= k < i ==> (#[trigger] r@[k]).wf() && r@[k].tree() == list@[k].tree(),
        decreases list@.len() - i,
    {
        r.push(list[i].copy());
        i += 1;
    }
    assert(list_trees(r@) =~= list_trees(list@));
    r
}

/// A copy of a list without the entries under a key.
fn copy_without(list: &Vec<Json>, field: &str, key: &str) -> (r: Vec<Json>)
    requires
        forall|i: int| 0 <= i < list@.len() ==> (#[trigger] list@[i]).wf(),
    ensures
        forall|i: int| 0 <= i < r@.len() ==> (#[trigger] r@[i]).wf(),
        list_trees(r@) == entries_without(list_trees(list@), field@, key@),
{
    let mut r: Vec<Json> = Vec::new();
    let mut i: usize = 0;
    let ghost all = list_trees(list@);
    proof {
        reveal(Seq::filter);
        assert(list_trees(r@) =~= entries_without(all.take(0), field@, key@));
    }
    while i < list.len()
        invariant
            i <= list@.len(),
            all == list_trees(list@),
            forall|k: int| 0 <= k < list@.len() ==> (#[trigger] list@[k]).wf(),
            forall|k: int| 0 <= k < r@.len() ==> (#[trigger] r@[k]).wf(),
            list_trees(r@) == entries_without(all.take(i as int), field@, key@),
        decreases list@.len() - i,
    {
        proof {
            lemma_without_step(all, i as int, field@, key@);
        }
        if !entry_matches(&list[i], field, key) {
            let e = list[i].copy();
            let ghost before = r@;
            r.push(e);
            assert(list_trees(r@) =~= list_trees(before).push(e.tree()));
        }
        i += 1;
    }
    assert(all.take(list@.len() as int) =~= all);
    r
}

/// Writes the entries of `changes` over those of `target`, where both are objects.
fn merge_into(target: &mut Json, changes: &Json)
    requires
        old(target).wf(),
        changes.wf(),
    ensures
        final(target).wf(),
        final(target).tree() == merged(old(target).tree(), changes.tree()),
{
    proof {
        lemma_tree(*changes);
        lemma_tree(*target);
    }
    let ghost start = target.tree();
    match changes {
        Json::Object(entries) => {
            match target {
                Json::Object(v) => {
                    let mut i: usize = 0;
                    let ghost base = entries_map(entry_trees(v@));
                    proof {
                        lemma_entries_map(entries@);
                        assert(entries@.take(0) =~= Seq::empty());
                        lemma_entries_map(entries@.take(0));
                        assert(base =~= base.union_prefer_right(
                            entries_map(entry_trees(entries@.take(0))),
                        ));
                    }
                    while i < entries.len()
                        invariant
                            i <= entries@.len(),
                            changes.wf(),
                            changes is Object,
                            changes->Object_0 == *entries,
                            distinct_keys(v@),
                            forall|k: int| 0 <= k < v@.len() ==> (#[trigger] v@[k]).1.wf(),
                            entries_map(entry_trees(v@)) == base.union_prefer_right(
                                entries_map(entry_trees(entries@.take(i as int))),
                            ),
                        decreases entries@.len() - i,
                    {
                        assert(entries[i as int].1.wf());
                        let value = entries[i].1.copy();
                        let ghost t = value.tree();
                        let ghost before = entries_map(entry_trees(v@));
                        put_entry(v, entries[i].0.as_str(), value);
                        proof {
                            let done = entries@.take(i as int);
                            let next = entries@.take(i + 1);
                            assert(entry_trees(next).drop_last() =~= entry_trees(done));
                            assert(entries_map(entry_trees(next)) == entries_map(
                                entry_trees(done),
                            ).insert(entries@[i as int].0@, t));
                            assert(entries_map(entry_trees(v@)) =~= base.union_prefer_right(
                                entries_map(entry_trees(next)),
                            ));
                        }
                        i += 1;
                    }
                    assert(entries@.take(entries@.len() as int) =~= entries@);
                },
                _ => {},
            }
        },
        _ => {},
    }
    proof {
        lemma_tree(*target);
    }
}

/// Carries out an edit on a list of entries that are known by a text field.
fn edit_list(
    list: &Vec<Json>,
    edit: ListEdit,
    amendment_type: &str,
    field: &str,
    noun: &str,
    changes: &Json,
) -> (r: Result<Vec<Json>, String>)
    requires
        forall|i: int| 0 <= i < list@.len() ==> (#[trigger] list@[i]).wf(),
        changes.wf(),
    ensures
        (match edited(
            list_trees(list@),
            edit,
            amendment_type@,
            field@,
            noun@,
            changes.tree(),
        ) {
            Ok(l) => r is Ok && list_trees(r->Ok_0@) == l && forall|i: int|
                0 <= i < r->Ok_0@.len() ==> (#[trigger] r->Ok_0@[i]).wf(),
            Err(e) => r is Err && r->Err_0@ == e,
        }),
{
    let key = match changes.get_str(field) {
        Some(k) => k,
        None => {
            let mut m = amendment_type.to_owned();
            m.append(" requires '");
            m.append(field);
            m.append("' field");
            return Err(m);
        },
    };
    let at: usize = find_entry(list, field, key);
    let found = at < list.len();
    match edit {
        ListEdit::Append => {
            if found {
                let mut m = noun.to_owned();
                m.append(" '");
                m.append(key);
                m.append("' already exists");
                return Err(m);
            }
            let mut r = copy_list(list);
            let c = changes.copy();
            let ghost before = r@;
            r.push(c);
            assert(list_trees(r@) =~= list_trees(before).push(changes.tree()));
            Ok(r)
        },
        _ => {
            if !found {
                let mut m = noun.to_owned();
                m.append(" '");
                m.append(key);
                m.append("' not found");
                return Err(m);
            }
            if edit == ListEdit::Remove {
                Ok(copy_without(list, field, key))
            } else {
                let mut r = copy_list(list);
                let ghost before = r@;
                assert(list_trees(before)[at as int] == before[at as int].tree());
                let mut e = r[at].copy();
                merge_into(&mut e, changes);
                r.set(at, e);
                assert(list_trees(r@) =~= list_trees(before).update(at as int, e.tree()));
                Ok(r)
            }
        },
    }
}

/// Amends the invariants document.
pub fn apply_invariant_amendment(doc: Json, amendment_type: &str, changes: &Json) -> (r: Result<
    Json,
    String,
>)
    requires
        doc.wf(),
        changes.wf(),
    ensures
        (match amended_invariants(doc.tree(), amendment_type@, changes.tree()) {
            Ok(t) => r is Ok && r->Ok_0.wf() && r->Ok_0.tree() == t,
            Err(e) => r is Err && r->Err_0@ == e,
        }),
{
    let edit = if str_eq(amendment_type, "add_test") {
        Some(ListEdit::Append)
    } else if str_eq(amendment_type, "remove_test") {
        Some(ListEdit::Remove)
    } else if str_eq(amendment_type, "modify_test") {
        Some(ListEdit::Modify)
    } else {
        None
    };
    let list = match doc.get_list("tests") {
        Some(l) => l,
        None => {
            return Err("invariants.json missing 'tests' array".to_owned());
        },
    };
    let edit = match edit {
        Some(e) => e,
        None => {
            let mut m = "Invalid amendment type for invariants: ".to_owned();
            m.append(amendment_type);
            return Err(m);
        },
    };
    match edit_list(list, edit, amendment_type, "id", "Test", changes) {
        Err(e) => Err(e),
        Ok(l) => {
            let mut out = doc;
            let new_list = Json::List(l);
            proof {
                lemma_tree(new_list);
            }
            out.set("tests", new_list);
            Ok(out)
        },
    }
}

/// Stores a field of the changes in a document, where they have it.
fn set_threshold(doc: &mut Json, key: &str, changes: &Json)
    requires
        old(doc).wf(),
        changes.wf(),
        changes.tree().get(key@) is Some ==> takes_thresholds(old(doc).tree()),
    ensures
        final(doc).wf(),
        final(doc).tree() == with_threshold(old(doc).tree(), key@, changes.tree()),
{
    match changes.get(key) {
        Some(t) => {
            let value = t.copy();
            if let Json::Null = doc {
                let fresh: Vec<(String, Json)> = Vec::new();
                *doc = Json::Object(fresh);
                proof {
                    lemma_tree(*doc);
                }
            }
            doc.set(key, value);
        },
        None => {},
    }
}

/// Amends the benchmarks document.
pub fn apply_benchmark_amendment(doc: Json, amendment_type: &str, changes: &Json) -> (r: Result<
    Json,
    String,
>)
    requires
        doc.wf(),
        changes.wf(),
        !thresholds_misplaced(doc.tree(), amendment_type@, changes.tree()),
    ensures
        (match amended_benchmarks(doc.tree(), amendment_type@, changes.tree()) {
            Ok(t) => r is Ok && r->Ok_0.wf() && r->Ok_0.tree() == t,
            Err(e) => r is Err && r->Err_0@ == e,
        }),
{
    let edit = if str_eq(amendment_type, "add_dimension") {
        Some(ListEdit::Append)
    } else if str_eq(amendment_type, "remove_dimension") {
        Some(ListEdit::Remove)
    } else if str_eq(amendment_type, "modify_dimension") {
        Some(ListEdit::Modify)
    } else {
        None
    };
    match edit {
        Some(edit) => {
            let list = match doc.get_list("dimensions") {
                Some(l) => l,
                None => {
                    return Err("benchmarks.json missing 'dimensions' array".to_owned());
                },
            };
            match edit_list(list, edit, amendment_type, "name", "Dimension", changes) {
                Err(e) => Err(e),
                Ok(l) => {
                    let mut out = doc;
                    let new_list = Json::List(l);
                    proof {
                        lemma_tree(new_list);
                    }
                    out.set("dimensions", new_list);
                    Ok(out)
                },
            }
        },
        None => {
            if str_eq(amendment_type, "update_thresholds") {
                let mut out = doc;
                set_threshold(&mut out, "overall_min", changes);
                set_threshold(&mut out, "regression_tolerance", changes);
                Ok(out)
            } else {
                let mut m = "Invalid amendment type for benchmarks: ".to_owned();
                m.append(amendment_type);
                Err(m)
            }
        },
    }
}

/// The files that amendments may change.
pub open spec fn valid_target(target: Seq<char>) -> bool {
    target == "invariants.json"@ || target == "benchmarks.json"@
}

/// The kinds of amendment.
pub open spec fn valid_type(amendment_type: Seq<char>) -> bool {
    ||| test_edit(amendment_type) is Some
    ||| dimension_edit(amendment_type) is Some
    ||| amendment_type == "update_thresholds"@
}

/// The text that an amendment's signature is made over.
pub open spec fn signature_payload(
    amendment_type: Seq<char>,
    target: Seq<char>,
    description: Seq<char>,
    changes: JsonTree,
) -> Seq<char> {
    amendment_type + ":"@ + target + ":"@ + description + ":"@ + json_compact(changes)
}

/// Whether a signature is the hexadecimal HMAC-SHA256 tag of the data.
pub open spec fn signature_valid(key: Seq<u8>, data: Seq<char>, signature: Seq<char>) -> bool {
    is_hex(signature) && hex_decoded(signature) == hmac_sha256(key, encode_utf8(data))
}

/// The signature of data under a key.
pub open spec fn signature_of(key: Seq<u8>, data: Seq<char>) -> Seq<char> {
    hex_encoded(hmac_sha256(key, encode_utf8(data)))
}

/// What becomes of a proposal.
pub ghost enum AmendmentOutcome {
    /// The target file gets this text.
    Updated(Seq<char>),
    Refused(Seq<char>),
    NotAnObject,
}

/// The document that an amendment makes, or why there is none.
pub open spec fn amended_tree(
    doc: JsonTree,
    target: Seq<char>,
    amendment_type: Seq<char>,
    changes: JsonTree,
) -> Result<JsonTree, Seq<char>> {
    if target == "invariants.json"@ {
        amended_invariants(doc, amendment_type, changes)
    } else if target == "benchmarks.json"@ {
        amended_benchmarks(doc, amendment_type, changes)
    } else {
        Err("Unsupported target: "@ + target)
    }
}

/// The outcome of amending a document.
pub open spec fn amended_document(
    doc: JsonTree,
    target: Seq<char>,
    amendment_type: Seq<char>,
    changes: JsonTree,
) -> AmendmentOutcome {
    if target == "benchmarks.json"@ && thresholds_misplaced(doc, amendment_type, changes) {
        AmendmentOutcome::NotAnObject
    } else {
        match amended_tree(doc, target, amendment_type, changes) {
            Ok(t) => AmendmentOutcome::Updated(json_pretty(t)),
            Err(e) => AmendmentOutcome::Refused(e),
        }
    }
}

/// The outcome of amending a file, given what reading it gave.
pub open spec fn amended_file(
    content: Result<Seq<char>, Seq<char>>,
    target: Seq<char>,
    amendment_type: Seq<char>,
    changes: JsonTree,
) -> AmendmentOutcome {
    match content {
        Err(e) => AmendmentOutcome::Refused("Failed to read "@ + target + ": "@ + e),
        Ok(text) => match json_parse(text) {
            Err(e) => AmendmentOutcome::Refused("Failed to parse "@ + target + ": "@ + e),
            Ok(doc) => amended_document(doc, target, amendment_type, changes),
        },
    }
}

/// A text that an amendment makes reads back as the amended document.
pub open spec fn reads_as_amended(
    text: Seq<char>,
    before: Seq<char>,
    target: Seq<char>,
    amendment_type: Seq<char>,
    changes: JsonTree,
) -> bool {
    json_parse(before) matches Ok(doc) ==> amended_tree(
        doc,
        target,
        amendment_type,
        changes,
    ) matches Ok(t) ==> reads_back(t) ==> denotes(text, t)
}

/// The outcome of a proposal: target, type and signature are checked in this
/// order before the file is touched.
pub open spec fn proposal_outcome(
    key: Seq<u8>,
    amendment_type: Seq<char>,
    target: Seq<char>,
    description: Seq<char>,
    changes: JsonTree,
    signature: Seq<char>,
    content: Result<Seq<char>, Seq<char>>,
) -> AmendmentOutcome {
    if !valid_target(target) {
        AmendmentOutcome::Refused(
            "Invalid target file '"@ + target
                + "'. Must be one of: [\"invariants.json\", \"benchmarks.json\"]"@,
        )
    } else if !valid_type(amendment_type) {
        AmendmentOutcome::Refused(
            "Invalid amendment type '"@ + amendment_type
                + "'. Must be one of: [\"add_test\", \"remove_test\", \"modify_test\", \"add_dimension\", \"remove_dimension\", \"modify_dimension\", \"update_thresholds\"]"@,
        )
    } else if !signature_valid(
        key,
        signature_payload(amendment_type, target, description, changes),
        signature,
    ) {
        AmendmentOutcome::Refused("Invalid HMAC signature — human authorization required"@)
    } else {
        amended_file(content, target, amendment_type, changes)
    }
}

impl AmendmentOutcome {
    /// Whether an executable result is this outcome.
    pub open spec fn is_result(self, r: Result<String, AmendmentError>) -> bool {
        match self {
            AmendmentOutcome::Updated(t) => r is Ok && r->Ok_0@ == t,
            AmendmentOutcome::Refused(e) => r is Err && r->Err_0 is Refused
                && r->Err_0->Refused_0@ == e,
            AmendmentOutcome::NotAnObject => r is Err && r->Err_0 is NotAnObject,
        }
    }
}

/// Amends a document that was read from the target file.
pub fn apply_amendment(content: &str, target_file: &str, amendment_type: &str, changes: &Json) -> (r:
    Result<String, AmendmentError>)
    requires
        changes.wf(),
    ensures
        amended_file(Ok(content@), target_file@, amendment_type@, changes.tree()).is_result(r),
        r is Ok ==> reads_as_amended(
            r->Ok_0@,
            content@,
            target_file@,
            amendment_type@,
            changes.tree(),
        ),
{
    let doc = match Json::parse(content) {
        Ok(d) => d,
        Err(e) => {
            let mut m = "Failed to parse ".to_owned();
            m.append(target_file);
            m.append(": ");
            m.append(e.as_str());
            return Err(AmendmentError::Refused(m));
        },
    };
    let amended = if str_eq(target_file, "invariants.json") {
        proof {
            reveal_strlit("invariants.json");
            reveal_strlit("benchmarks.json");
            assert("invariants.json"@[0] != "benchmarks.json"@[0]);
        }
        apply_invariant_amendment(doc, amendment_type, changes)
    } else if str_eq(target_file, "benchmarks.json") {
        let takes = match &doc {
            Json::Object(_) => true,
            Json::Null => true,
            _ => false,
        };
        if str_eq(amendment_type, "update_thresholds") && !takes && (changes.get(
            "overall_min",
        ).is_some() || changes.get("regression_tolerance").is_some()) {
            return Err(AmendmentError::NotAnObject);
        }
        apply_benchmark_amendment(doc, amendment_type, changes)
    } else {
        let mut m = "Unsupported target: ".to_owned();
        m.append(target_file);
        return Err(AmendmentError::Refused(m));
    };
    match amended {
        Ok(d) => Ok(d.pretty()),
        Err(e) => Err(AmendmentError::Refused(e)),
    }
}

/// The name of the file that holds the shared secret.
pub const SECRET_KEY_FILE: &'static str = "secret.key";

/// The number of bytes of a newly made secret.
pub const SECRET_KEY_LEN: usize = 32;

/// Reads the secret from the text of its file.
pub fn decode_secret(content: &str) -> (r: Result<Vec<u8>, String>)
    ensures
        r is Ok <==> is_hex(trimmed(content@)),
        r is Ok ==> r->Ok_0@ == hex_decoded(trimmed(content@)),
        r is Err ==> r->Err_0@ == "Invalid secret key hex: "@ + hex_error(trimmed(content@)),
{
    match hex_decode(trim(content).as_str()) {
        Ok(k) => Ok(k),
        Err(e) => {
            let mut m = "Invalid secret key hex: ".to_owned();
            m.append(e.as_str());
            Err(m)
        },
    }
}

/// The `i`-th byte of a new secret, mixed from the clock's nanoseconds.
pub open spec fn secret_byte(nanos: int, i: int) -> int {
    (nanos * 6364136223846793005 + i) % 256
}

/// The text of the file for a new secret, and the secret itself, from one clock
/// reading per byte.
pub fn new_secret(nanos: &Vec<u128>) -> (r: (Vec<u8>, String))
    requires
        nanos@.len() == SECRET_KEY_LEN,
    ensures
        r.0@ == Seq::new(
            SECRET_KEY_LEN as nat,
            |i: int| secret_byte(nanos@[i] as int, i) as u8,
        ),
        r.1@ == hex_encoded(r.0@),
{
    let mut key: Vec<u8> = Vec::new();
    let mut i: usize = 0;
    while i < SECRET_KEY_LEN
        invariant
            i <= SECRET_KEY_LEN,
            nanos@.len() == SECRET_KEY_LEN,
            key@.len() == i,
            forall|k: int|
                0 <= k < i ==> key@[k] == #[trigger] secret_byte(nanos@[k] as int, k) as u8,
        decreases SECRET_KEY_LEN - i,
    {
        let low: u128 = nanos[i] % 256;
        let mixed: u128 = (low * 6364136223846793005 + i as u128) % 256;
        proof {
            let t = nanos@[i as int] as int;
            let m = 6364136223846793005int;
            let q = t / 256;
            assert(t == 256 * q + low);
            assert(t * m + i == (low * m + i) + 256 * (q * m)) by (nonlinear_arith)
                requires
                    t == 256 * q + low,
            ;
            vstd::arithmetic::div_mod::lemma_mod_multiples_vanish(q * m, low * m + i, 256);
        }
        key.push(mixed as u8);
        i += 1;
    }
    assert(key@ =~= Seq::new(
        SECRET_KEY_LEN as nat,
        |i: int| secret_byte(nanos@[i] as int, i) as u8,
    ));
    let text = hex_encode(key.as_slice());
    (key, text)
}

/// The number of lines of an amendment log that are not blank.
pub open spec fn amendments_in(log: Seq<Seq<char>>) -> nat
    decreases log.len(),
{
    if log.len() == 0 {
        0
    } else {
        amendments_in(log.drop_last()) + if trimmed(log.last()).len() > 0 {
            1nat
        } else {
            0nat
        }
    }
}

/// Counts the amendments that a log records.
pub fn count_amendments(log: &str) -> (n: u64)
    ensures
        n == amendments_in(lines(log@)),
{
    let all = lines_of(log);
    let mut n: u64 = 0;
    let mut i: usize = 0;
    let ghost seqs = texts(all@);
    while i < all.len()
        invariant
            i <= all@.len(),
            seqs == texts(all@),
            n <= i,
            n == amendments_in(seqs.take(i as int)),
        decreases all@.len() - i,
    {
        assert(seqs.take(i + 1).drop_last() =~= seqs.take(i as int));
        let t = trim(all[i].as_str());
        if t.as_str().unicode_len() > 0 {
            n += 1;
        }
        i += 1;
    }
    assert(seqs.take(all@.len() as int) =~= seqs);
    n
}

/// Holds the shared secret and the number of amendments so far.
pub struct ConstitutionManager {
    base_dir: String,
    secret_key: Vec<u8>,
    amendment_counter: u64,
}

/// The mathematical state of a `ConstitutionManager`.
pub ghost struct ConstitutionState {
    pub base_dir: Seq<char>,
    pub key: Seq<u8>,
    pub amendments: nat,
}

impl View for ConstitutionManager {
    type V = ConstitutionState;

    closed spec fn view(&self) -> ConstitutionState {
        ConstitutionState {
            base_dir: self.base_dir@,
            key: self.secret_key@,
            amendments: self.amendment_counter as nat,
        }
    }
}

impl ConstitutionManager {
    /// A manager for a base directory, with its secret and the amendment log
    /// as far as there is one.
    pub fn new(base_dir: &str, secret_key: Vec<u8>, log: Option<String>) -> (m: ConstitutionManager)
        ensures
            m@ == (ConstitutionState {
                base_dir: base_dir@,
                key: secret_key@,
                amendments: match log {
                    Some(l) => amendments_in(lines(l@)),
                    None => 0,
                },
            }),
    {
        let amendment_counter: u64 = match log {
            Some(l) => count_amendments(l.as_str()),
            None => 0,
        };
        ConstitutionManager { base_dir: base_dir.to_owned(), secret_key, amendment_counter }
    }

    /// Whether a signature authorises the data.
    pub fn verify_signature(&self, data: &str, signature: &str) -> (ok: bool)
        ensures
            ok == signature_valid(self@.key, data@, signature@),
    {
        match hex_decode(signature) {
            Ok(tag) => hmac_verify(self.secret_key.as_slice(), data.as_bytes(), tag.as_slice()),
            Err(_) => false,
        }
    }

    /// The signature that authorises the data.
    pub fn compute_signature(&self, data: &str) -> (r: Result<String, String>)
        ensures
            r is Ok,
            r->Ok_0@ == signature_of(self@.key, data@),
    {
        let tag = hmac_tag(self.secret_key.as_slice(), data.as_bytes());
        Ok(hex_encode(tag.as_slice()))
    }

    /// The text that an amendment's signature is made over.
    pub fn build_signature_payload(
        &self,
        amendment_type: &str,
        target_file: &str,
        description: &str,
        changes: &Json,
    ) -> (s: String)
        requires
            changes.wf(),
        ensures
            s@ == signature_payload(amendment_type@, target_file@, description@, changes.tree()),
    {
        let mut s = amendment_type.to_owned();
        s.append(":");
        s.append(target_file);
        s.append(":");
        s.append(description);
        s.append(":");
        s.append(changes.compact().as_str());
        s
    }

    /// Decides on a proposal, given what reading the target file gave, and
    /// returns the new text of the file. The amendment counts once the file is
    /// written: see `record_amendment`.
    pub fn propose_amendment(
        &self,
        amendment_type: &str,
        target_file: &str,
        description: &str,
        changes: &Json,
        signature: &str,
        content: Result<String, String>,
    ) -> (r: Result<String, AmendmentError>)
        requires
            changes.wf(),
        ensures
            proposal_outcome(
                self@.key,
                amendment_type@,
                target_file@,
                description@,
                changes.tree(),
                signature@,
                match content {
                    Ok(t) => Ok(t@),
                    Err(e) => Err(e@),
                },
            ).is_result(r),
            r is Ok ==> content is Ok && reads_as_amended(
                r->Ok_0@,
                content->Ok_0@,
                target_file@,
                amendment_type@,
                changes.tree(),
            ),
    {
        if !(str_eq(target_file, "invariants.json") || str_eq(target_file, "benchmarks.json")) {
            let mut m = "Invalid target file '".to_owned();
            m.append(target_file);
            m.append("'. Must be one of: [\"invariants.json\", \"benchmarks.json\"]");
            return Err(AmendmentError::Refused(m));
        }
        let known = str_eq(amendment_type, "add_test") || str_eq(amendment_type, "remove_test")
            || str_eq(amendment_type, "modify_test") || str_eq(amendment_type, "add_dimension")
            || str_eq(amendment_type, "remove_dimension") || str_eq(
            amendment_type,
            "modify_dimension",
        ) || str_eq(amendment_type, "update_thresholds");
        if !known {
            let mut m = "Invalid amendment type '".to_owned();
            m.append(amendment_type);
            m.append(
                "'. Must be one of: [\"add_test\", \"remove_test\", \"modify_test\", \"add_dimension\", \"remove_dimension\", \"modify_dimension\", \"update_thresholds\"]",
            );
            return Err(AmendmentError::Refused(m));
        }
        let payload = self.build_signature_payload(
            amendment_type,
            target_file,
            description,
            changes,
        );
        if !self.verify_signature(payload.as_str(), signature) {
            return Err(
                AmendmentError::Refused(
                    "Invalid HMAC signature — human authorization required".to_owned(),
                ),
            );
        }
        match content {
            Ok(text) => apply_amendment(text.as_str(), target_file, amendment_type, changes),
            Err(e) => {
                let mut m = "Failed to read ".to_owned();
                m.append(target_file);
                m.append(": ");
                m.append(e.as_str());
                Err(AmendmentError::Refused(m))
            },
        }
    }

    /// Counts an amendment that was carried out and makes its record.
    pub fn record_amendment(
        &mut self,
        amendment_type: &str,
        target_file: &str,
        description: &str,
        changes: &Json,
        timestamp: u64,
    ) -> (record: AmendmentRecord)
        requires
            changes.wf(),
            old(self)@.amendments < u64::MAX,
        ensures
            final(self)@ == (ConstitutionState {
                amendments: old(self)@.amendments + 1,
                ..old(self)@
            }),
            record.id@ == "amendment-"@ + padded(dec(final(self)@.amendments), 4, '0'),
            record.timestamp == timestamp,
            record.amendment_type@ == amendment_type@,
            record.target_file@ == target_file@,
            record.description@ == description@,
            record.changes.wf() && record.changes.tree() == changes.tree(),
    {
        self.amendment_counter += 1;
        let mut id = "amendment-".to_owned();
        id.append(pad_left(decimal(self.amendment_counter).as_str(), 4, '0').as_str());
        AmendmentRecord {
            id,
            timestamp,
            amendment_type: amendment_type.to_owned(),
            target_file: target_file.to_owned(),
            description: description.to_owned(),
            changes: changes.copy(),
        }
    }

    pub fn secret_key_path(&self) -> (p: String)
        ensures
            p@ == joined(self@.base_dir, "secret.key"@),
    {
        join(self.base_dir.as_str(), SECRET_KEY_FILE)
    }
}

/// What `compute_signature` signs, `verify_signature` accepts.
pub proof fn law_sign_then_verify(key: Seq<u8>, data: Seq<char>)
    ensures
        signature_valid(key, data, signature_of(key, data)),
{
    law_hex_round_trip(hmac_sha256(key, encode_utf8(data)));
}

/// A signature authorises data only if it denotes the data's tag: two data with
/// different tags never share a signature.
pub proof fn law_signature_binds_tag(key: Seq<u8>, a: Seq<char>, b: Seq<char>, sig: Seq<char>)
    requires
        signature_valid(key, a, sig),
        signature_valid(key, b, sig),
    ensures
        hmac_sha256(key, encode_utf8(a)) == hmac_sha256(key, encode_utf8(b)),
{
}

/// The constitution changes only by an amendment of a known type to a known
/// file under a valid human signature.
pub proof fn law_no_change_without_signature(
    key: Seq<u8>,
    amendment_type: Seq<char>,
    target: Seq<char>,
    description: Seq<char>,
    changes: JsonTree,
    signature: Seq<char>,
    content: Result<Seq<char>, Seq<char>>,
)
    requires
        proposal_outcome(key, amendment_type, target, description, changes, signature, content)
            is Updated,
    ensures
        valid_target(target),
        valid_type(amendment_type),
        signature_valid(
            key,
            signature_payload(amendment_type, target, description, changes),
            signature,
        ),
        content is Ok,
{
}

/// An amendment of the invariants leaves every other field of the document as it was.
pub proof fn law_invariant_amendment_is_local(
    doc: JsonTree,
    amendment_type: Seq<char>,
    changes: JsonTree,
    field: Seq<char>,
)
    requires
        amended_invariants(doc, amendment_type, changes) is Ok,
        field != "tests"@,
    ensures
        amended_invariants(doc, amendment_type, changes)->Ok_0.get(field) == doc.get(field),
{
}

/// Appending an entry and removing it again restores the list.
pub proof fn law_remove_undoes_append(
    list: Seq<JsonTree>,
    add_type: Seq<char>,
    remove_type: Seq<char>,
    field: Seq<char>,
    noun: Seq<char>,
    changes: JsonTree,
)
    requires
        edited(list, ListEdit::Append, add_type, field, noun, changes) is Ok,
    ensures
        edited(
            edited(list, ListEdit::Append, add_type, field, noun, changes)->Ok_0,
            ListEdit::Remove,
            remove_type,
            field,
            noun,
            changes,
        ) == Ok::<Seq<JsonTree>, Seq<char>>(list),
{
    let key = changes.get_text(field)->Some_0;
    let grown = list.push(changes);
    lemma_entry_at_none(list, field, key);
    lemma_entry_at(grown, field, key, list.len() as int);
    lemma_without_none(list, field, key, list.len());
    lemma_without_step(grown, list.len() as int, field, key);
    assert(grown.take(list.len() as int + 1) =~= grown);
    assert(grown.take(list.len() as int) =~= list);
    assert(list.take(list.len() as int) =~= list);
}

proof fn lemma_entry_at_none(list: Seq<JsonTree>, field: Seq<char>, key: Seq<char>)
    requires
        entry_at(list, field, key) >= list.len(),
    ensures
        forall|i: int| 0 <= i < list.len() ==> !is_entry(#[trigger] list[i], field, key),
    decreases list.len(),
{
    if list.len() > 0 {
        let d = list.drop_first();
        lemma_entry_at_none(d, field, key);
        assert forall|i: int| 0 <= i < list.len() implies !is_entry(
            #[trigger] list[i],
            field,
            key,
        ) by {
            if i > 0 {
                assert(d[i - 1] == list[i]);
            }
        }
    }
}

proof fn lemma_without_none(list: Seq<JsonTree>, field: Seq<char>, key: Seq<char>, n: nat)
    requires
        n <= list.len(),
        forall|i: int| 0 <= i < list.len() ==> !is_entry(#[trigger] list[i], field, key),
    ensures
        entries_without(list.take(n as int), field, key) == list.take(n as int),
    decreases n,
{
    if n == 0 {
        reveal(Seq::filter);
        assert(list.take(0).len() == 0);
        assert(entries_without(list.take(0), field, key) =~= list.take(0));
    } else {
        lemma_without_none(list, field, key, (n - 1) as nat);
        lemma_without_step(list, n - 1, field, key);
        assert(list.take(n - 1).push(list[n - 1]) =~= list.take(n as int));
    }
}

/// The kinds of amendment differ.
proof fn lemma_kinds()
    ensures
        "add_test"@ != "remove_test"@,
        "add_test"@ != "modify_test"@,
        "add_test"@ != "add_dimension"@,
        "add_test"@ != "remove_dimension"@,
        "add_test"@ != "modify_dimension"@,
        "add_test"@ != "update_thresholds"@,
        "remove_test"@ != "modify_test"@,
        "remove_test"@ != "add_dimension"@,
        "remove_test"@ != "remove_dimension"@,
        "remove_test"@ != "modify_dimension"@,
        "remove_test"@ != "update_thresholds"@,
        "modify_test"@ != "add_dimension"@,
        "modify_test"@ != "remove_dimension"@,
        "modify_test"@ != "modify_dimension"@,
        "modify_test"@ != "update_thresholds"@,
        "add_dimension"@ != "remove_dimension"@,
        "add_dimension"@ != "modify_dimension"@,
        "add_dimension"@ != "update_thresholds"@,
        "remove_dimension"@ != "modify_dimension"@,
        "remove_dimension"@ != "update_thresholds"@,
        "modify_dimension"@ != "update_thresholds"@,
{
    reveal_strlit("add_test");
    reveal_strlit("remove_test");
    reveal_strlit("modify_test");
    reveal_strlit("add_dimension");
    reveal_strlit("remove_dimension");
    reveal_strlit("modify_dimension");
    reveal_strlit("update_thresholds");
    assert("add_test"@.len() == 8);
    assert("remove_test"@.len() == 11);
    assert("modify_test"@.len() == 11);
    assert("add_dimension"@.len() == 13);
    assert("remove_dimension"@.len() == 16);
    assert("modify_dimension"@.len() == 16);
    assert("update_thresholds"@.len() == 17);
    assert("remove_test"@[0] == 'r');
    assert("modify_test"@[0] == 'm');
    assert("remove_dimension"@[0] == 'r');
    assert("modify_dimension"@[0] == 'm');
}

/// What removing the entries under a key makes of a list: no entry under the
/// key is left, and every other entry stands, in the order that it had.
pub open spec fn keeps_others(
    before: Seq<JsonTree>,
    after: Seq<JsonTree>,
    field: Seq<char>,
    key: Seq<char>,
) -> bool {
    exists|from: Seq<int>| #[trigger] taken_from(before, after, from) && forall|i: int|
        0 <= i < before.len() ==> ((#[trigger] before[i]).get_text(field) != Some(key)
            <==> from.contains(i))
}

/// The entries of a list are those of another one at the given places, which
/// go up.
pub open spec fn taken_from(
    before: Seq<JsonTree>,
    after: Seq<JsonTree>,
    from: Seq<int>,
) -> bool {
    &&& from.len() == after.len()
    &&& forall|j: int|
        0 <= j < from.len() ==> 0 <= #[trigger] from[j] < before.len() && after[j]
            == before[from[j]]
    &&& forall|j: int, k: int| 0 <= j < k < from.len() ==> #[trigger] from[j] < #[trigger] from[k]
}

/// What modifying an entry makes of a list, seen at a field of the entry.
pub open spec fn first_takes_over(
    before: Seq<JsonTree>,
    after: Seq<JsonTree>,
    field: Seq<char>,
    changes: JsonTree,
    f: Seq<char>,
) -> bool {
    exists|at: int|
        {
            &&& 0 <= at < before.len()
            &&& after.len() == before.len()
            &&& (#[trigger] before[at]).get_text(field) == changes.get_text(field)
            &&& forall|i: int|
                0 <= i < at ==> (#[trigger] before[i]).get_text(field) != changes.get_text(field)
            &&& forall|i: int| 0 <= i < before.len() && i != at ==> #[trigger] after[i] == before[i]
            &&& changes.get(f) is Some ==> after[at].get(f) == changes.get(f)
            &&& changes.get(f) is None ==> after[at].get(f) == before[at].get(f)
        }
}

/// Where the first entry under a key stands.
proof fn lemma_entry_found(list: Seq<JsonTree>, field: Seq<char>, key: Seq<char>)
    ensures
        0 <= entry_at(list, field, key) <= list.len(),
        entry_at(list, field, key) < list.len() ==> list[entry_at(list, field, key)].get_text(
            field,
        ) == Some(key),
        forall|i: int|
            0 <= i < entry_at(list, field, key) ==> (#[trigger] list[i]).get_text(field) != Some(
                key,
            ),
    decreases list.len(),
{
    if list.len() > 0 && !is_entry(list[0], field, key) {
        let d = list.drop_first();
        lemma_entry_found(d, field, key);
        assert forall|i: int| 0 <= i < entry_at(list, field, key) implies (
        #[trigger] list[i]).get_text(field) != Some(key) by {
            if i > 0 {
                assert(d[i - 1] == list[i]);
            }
        }
    }
}

proof fn lemma_keeps_others(list: Seq<JsonTree>, field: Seq<char>, key: Seq<char>)
    ensures
        keeps_others(list, entries_without(list, field, key), field, key),
    decreases list.len(),
{
    reveal(Seq::filter);
    let after = entries_without(list, field, key);
    if list.len() == 0 {
        let from = Seq::<int>::empty();
        assert(after =~= Seq::empty());
        assert(taken_from(list, after, from));
    } else {
        let d = list.drop_last();
        let before = entries_without(d, field, key);
        lemma_keeps_others(d, field, key);
        let n = list.len() - 1;
        let old = choose|from: Seq<int>| #[trigger] taken_from(d, before, from) && forall|i: int|
            0 <= i < d.len() ==> ((#[trigger] d[i]).get_text(field) != Some(key)
                <==> from.contains(i));
        let from = if is_entry(list[n], field, key) {
            old
        } else {
            old.push(n)
        };
        assert(after == if is_entry(list[n], field, key) {
            before
        } else {
            before.push(list[n])
        });
        assert(taken_from(list, after, from)) by {
            assert forall|j: int| 0 <= j < from.len() implies 0 <= #[trigger] from[j] < list.len()
                && after[j] == list[from[j]] by {
                if j < old.len() {
                    assert(from[j] == old[j]);
                    assert(d[old[j]] == list[old[j]]);
                }
            }
            assert forall|j: int, k: int| 0 <= j < k < from.len() implies #[trigger] from[j]
                < #[trigger] from[k] by {
                assert(from[j] == old[j]);
                if k < old.len() {
                    assert(from[k] == old[k]);
                }
            }
        }
        assert forall|i: int| 0 <= i < list.len() implies ((#[trigger] list[i]).get_text(field)
            != Some(key) <==> from.contains(i)) by {
            if i < n {
                assert(d[i] == list[i]);
                if old.contains(i) {
                    let j = choose|j: int| 0 <= j < old.len() && old[j] == i;
                    assert(from[j] == i);
                }
                if from.contains(i) {
                    let j = choose|j: int| 0 <= j < from.len() && from[j] == i;
                    assert(old[j] == i);
                }
            } else {
                if from.contains(i) && is_entry(list[n], field, key) {
                    let j = choose|j: int| 0 <= j < old.len() && old[j] == i;
                    assert(0 <= old[j] < d.len());
                }
                if !is_entry(list[n], field, key) {
                    assert(from[from.len() - 1] == n);
                }
            }
        }
    }
}

/// Adding a test succeeds where the document has the list, the test has a key
/// and no entry of the list has the same. The test then stands at the end of
/// the list, and nothing else changes.
pub proof fn law_added_tests_stand_last(doc: JsonTree, changes: JsonTree, other: Seq<char>)
    requires
        other != "tests"@,
    ensures
        amended_invariants(doc, "add_test"@, changes) is Ok <==> {
            &&& doc.get_list("tests"@) is Some
            &&& changes.get_text("id"@) is Some
            &&& forall|i: int|
                0 <= i < doc.get_list("tests"@)->Some_0.len() ==> (#[trigger] doc.get_list(
                    "tests"@,
                )->Some_0[i]).get_text("id"@) != changes.get_text("id"@)
        },
        amended_invariants(doc, "add_test"@, changes) matches Ok(t) ==> {
            &&& t.get_list("tests"@) == Some(doc.get_list("tests"@)->Some_0.push(changes))
            &&& t.get(other) == doc.get(other)
        },
{
    lemma_kinds();
    if doc.get_list("tests"@) is Some && changes.get_text("id"@) is Some {
        let list = doc.get_list("tests"@)->Some_0;
        let key = changes.get_text("id"@)->Some_0;
        lemma_entry_found(list, "id"@, key);
    }
}

/// Removing a test succeeds where the list has an entry under the key. No entry
/// under the key is left, and all others stay in their order.
pub proof fn law_removed_tests_are_gone(doc: JsonTree, changes: JsonTree, other: Seq<char>)
    requires
        other != "tests"@,
    ensures
        amended_invariants(doc, "remove_test"@, changes) is Ok <==> {
            &&& doc.get_list("tests"@) is Some
            &&& changes.get_text("id"@) is Some
            &&& exists|i: int|
                0 <= i < doc.get_list("tests"@)->Some_0.len() && (#[trigger] doc.get_list(
                    "tests"@,
                )->Some_0[i]).get_text("id"@) == changes.get_text("id"@)
        },
        amended_invariants(doc, "remove_test"@, changes) matches Ok(t) ==> {
            &&& t.get_list("tests"@) is Some
            &&& keeps_others(
                doc.get_list("tests"@)->Some_0,
                t.get_list("tests"@)->Some_0,
                "id"@,
                changes.get_text("id"@)->Some_0,
            )
            &&& t.get(other) == doc.get(other)
        },
{
    lemma_kinds();
    if doc.get_list("tests"@) is Some && changes.get_text("id"@) is Some {
        let list = doc.get_list("tests"@)->Some_0;
        let key = changes.get_text("id"@)->Some_0;
        lemma_entry_found(list, "id"@, key);
        lemma_keeps_others(list, "id"@, key);
    }
}

/// Modifying a test succeeds where the list has an entry under the key. The list
/// keeps its length; the first entry under the key takes over every field of
/// the changes and keeps its other fields; all other entries stay.
pub proof fn law_modified_tests_take_over_the_changes(
    doc: JsonTree,
    changes: JsonTree,
    other: Seq<char>,
    f: Seq<char>,
)
    requires
        other != "tests"@,
    ensures
        amended_invariants(doc, "modify_test"@, changes) is Ok <==> {
            &&& doc.get_list("tests"@) is Some
            &&& changes.get_text("id"@) is Some
            &&& exists|i: int|
                0 <= i < doc.get_list("tests"@)->Some_0.len() && (#[trigger] doc.get_list(
                    "tests"@,
                )->Some_0[i]).get_text("id"@) == changes.get_text("id"@)
        },
        amended_invariants(doc, "modify_test"@, changes) matches Ok(t) ==> {
            &&& t.get_list("tests"@) is Some
            &&& first_takes_over(
                doc.get_list("tests"@)->Some_0,
                t.get_list("tests"@)->Some_0,
                "id"@,
                changes,
                f,
            )
            &&& t.get(other) == doc.get(other)
        },
{
    lemma_kinds();
    if doc.get_list("tests"@) is Some && changes.get_text("id"@) is Some {
        let list = doc.get_list("tests"@)->Some_0;
        let key = changes.get_text("id"@)->Some_0;
        lemma_entry_found(list, "id"@, key);
        let at = entry_at(list, "id"@, key);
        if at < list.len() {
            let new = list.update(at, merged(list[at], changes));
            assert(new.len() == list.len());
            assert(new[at].get(f) == (if changes.get(f) is Some {
                changes.get(f)
            } else {
                list[at].get(f)
            }));
        }
    }
}

/// Adding a dimension succeeds where the document has the list, the dimension has a key
/// and no entry of the list has the same. The dimension then stands at the end of
/// the list, and nothing else changes.
pub proof fn law_added_dimensions_stand_last(doc: JsonTree, changes: JsonTree, other: Seq<char>)
    requires
        other != "dimensions"@,
    ensures
        amended_benchmarks(doc, "add_dimension"@, changes) is Ok <==> {
            &&& doc.get_list("dimensions"@) is Some
            &&& changes.get_text("name"@) is Some
            &&& forall|i: int|
                0 <= i < doc.get_list("dimensions"@)->Some_0.len() ==> (#[trigger] doc.get_list(
                    "dimensions"@,
                )->Some_0[i]).get_text("name"@) != changes.get_text("name"@)
        },
        amended_benchmarks(doc, "add_dimension"@, changes) matches Ok(t) ==> {
            &&& t.get_list("dimensions"@) == Some(doc.get_list("dimensions"@)->Some_0.push(changes))
            &&& t.get(other) == doc.get(other)
        },
{
    lemma_kinds();
    if doc.get_list("dimensions"@) is Some && changes.get_text("name"@) is Some {
        let list = doc.get_list("dimensions"@)->Some_0;
        let key = changes.get_text("name"@)->Some_0;
        lemma_entry_found(list, "name"@, key);
    }
}

/// Removing a dimension succeeds where the list has an entry under the key. No entry
/// under the key is left, and all others stay in their order.
pub proof fn law_removed_dimensions_are_gone(doc: JsonTree, changes: JsonTree, other: Seq<char>)
    requires
        other != "dimensions"@,
    ensures
        amended_benchmarks(doc, "remove_dimension"@, changes) is Ok <==> {
            &&& doc.get_list("dimensions"@) is Some
            &&& changes.get_text("name"@) is Some
            &&& exists|i: int|
                0 <= i < doc.get_list("dimensions"@)->Some_0.len() && (#[trigger] doc.get_list(
                    "dimensions"@,
                )->Some_0[i]).get_text("name"@) == changes.get_text("name"@)
        },
        amended_benchmarks(doc, "remove_dimension"@, changes) matches Ok(t) ==> {
            &&& t.get_list("dimensions"@) is Some
            &&& keeps_others(
                doc.get_list("dimensions"@)->Some_0,
                t.get_list("dimensions"@)->Some_0,
                "name"@,
                changes.get_text("name"@)->Some_0,
            )
            &&& t.get(other) == doc.get(other)
        },
{
    lemma_kinds();
    if doc.get_list("dimensions"@) is Some && changes.get_text("name"@) is Some {
        let list = doc.get_list("dimensions"@)->Some_0;
        let key = changes.get_text("name"@)->Some_0;
        lemma_entry_found(list, "name"@, key);
        lemma_keeps_others(list, "name"@, key);
    }
}

/// Modifying a dimension succeeds where the list has an entry under the key. The list
/// keeps its length; the first entry under the key takes over every field of
/// the changes and keeps its other fields; all other entries stay.
pub proof fn law_modified_dimensions_take_over_the_changes(
    doc: JsonTree,
    changes: JsonTree,
    other: Seq<char>,
    f: Seq<char>,
)
    requires
        other != "dimensions"@,
    ensures
        amended_benchmarks(doc, "modify_dimension"@, changes) is Ok <==> {
            &&& doc.get_list("dimensions"@) is Some
            &&& changes.get_text("name"@) is Some
            &&& exists|i: int|
                0 <= i < doc.get_list("dimensions"@)->Some_0.len() && (#[trigger] doc.get_list(
                    "dimensions"@,
                )->Some_0[i]).get_text("name"@) == changes.get_text("name"@)
        },
        amended_benchmarks(doc, "modify_dimension"@, changes) matches Ok(t) ==> {
            &&& t.get_list("dimensions"@) is Some
            &&& first_takes_over(
                doc.get_list("dimensions"@)->Some_0,
                t.get_list("dimensions"@)->Some_0,
                "name"@,
                changes,
                f,
            )
            &&& t.get(other) == doc.get(other)
        },
{
    lemma_kinds();
    if doc.get_list("dimensions"@) is Some && changes.get_text("name"@) is Some {
        let list = doc.get_list("dimensions"@)->Some_0;
        let key = changes.get_text("name"@)->Some_0;
        lemma_entry_found(list, "name"@, key);
        let at = entry_at(list, "name"@, key);
        if at < list.len() {
            let new = list.update(at, merged(list[at], changes));
            assert(new.len() == list.len());
            assert(new[at].get(f) == (if changes.get(f) is Some {
                changes.get(f)
            } else {
                list[at].get(f)
            }));
        }
    }
}

/// Changed thresholds are stored, those that the changes do not name stay, and
/// so does every other field of the document.
pub proof fn law_thresholds_are_stored(doc: JsonTree, changes: JsonTree, field: Seq<char>)
    requires
        doc is Object || doc is Null,
    ensures
        amended_benchmarks(doc, "update_thresholds"@, changes) is Ok,
        amended_benchmarks(doc, "update_thresholds"@, changes)->Ok_0.get(field) == (if (field
            == "overall_min"@ || field == "regression_tolerance"@) && changes.get(field) is Some {
            changes.get(field)
        } else {
            doc.get(field)
        }),
        !thresholds_misplaced(doc, "update_thresholds"@, changes),
{
    lemma_kinds();
    reveal_strlit("overall_min");
    reveal_strlit("regression_tolerance");
    assert("overall_min"@.len() == 11);
    assert("regression_tolerance"@.len() == 20);
}

/// Tests are amended in the invariants only, dimensions and thresholds in the
/// benchmarks only.
pub proof fn law_amendments_keep_to_their_file(doc: JsonTree, kind: Seq<char>, changes: JsonTree)
    ensures
        amended_invariants(doc, kind, changes) is Ok ==> kind == "add_test"@ || kind
            == "remove_test"@ || kind == "modify_test"@,
        amended_benchmarks(doc, kind, changes) is Ok ==> kind == "add_dimension"@ || kind
            == "remove_dimension"@ || kind == "modify_dimension"@ || kind
            == "update_thresholds"@,
        amended_tree(doc, "invariants.json"@, kind, changes) == amended_invariants(
            doc,
            kind,
            changes,
        ),
        amended_tree(doc, "benchmarks.json"@, kind, changes) == amended_benchmarks(
            doc,
            kind,
            changes,
        ),
{
    reveal_strlit("invariants.json");
    reveal_strlit("benchmarks.json");
    assert("invariants.json"@[0] == 'i');
    assert("benchmarks.json"@[0] == 'b');
}

/// A signed proposal of a known kind for a known file that can be read is
/// decided by the amendment alone: it is carried out where the amendment
/// succeeds, and refused with the reason where it does not.
pub proof fn law_signed_amendments_are_carried_out(
    key: Seq<u8>,
    kind: Seq<char>,
    target: Seq<char>,
    description: Seq<char>,
    changes: JsonTree,
    signature: Seq<char>,
    text: Seq<char>,
    doc: JsonTree,
)
    requires
        target == "invariants.json"@ || target == "benchmarks.json"@,
        kind == "add_test"@ || kind == "remove_test"@ || kind == "modify_test"@ || kind
            == "add_dimension"@ || kind == "remove_dimension"@ || kind == "modify_dimension"@
            || kind == "update_thresholds"@,
        is_hex(signature),
        hex_decoded(signature) == hmac_sha256(
            key,
            encode_utf8(
                kind + ":"@ + target + ":"@ + description + ":"@ + json_compact(changes),
            ),
        ),
        json_parse(text) == Ok::<JsonTree, Seq<char>>(doc),
        !thresholds_misplaced(doc, kind, changes),
    ensures
        amended_tree(doc, target, kind, changes) matches Ok(t) ==> proposal_outcome(
            key,
            kind,
            target,
            description,
            changes,
            signature,
            Ok(text),
        ) == AmendmentOutcome::Updated(json_pretty(t)),
        amended_tree(doc, target, kind, changes) matches Err(e) ==> proposal_outcome(
            key,
            kind,
            target,
            description,
            changes,
            signature,
            Ok(text),
        ) == AmendmentOutcome::Refused(e),
{
    lemma_kinds();
}

/// What is signed is the whole proposal: two proposals of known kinds for known
/// files that amount to the same signed text have the same kind, the same file,
/// and the same description and changes as they are written.
pub proof fn law_signature_covers_the_proposal(
    kind1: Seq<char>,
    target1: Seq<char>,
    description1: Seq<char>,
    changes1: JsonTree,
    kind2: Seq<char>,
    target2: Seq<char>,
    description2: Seq<char>,
    changes2: JsonTree,
)
    requires
        valid_type(kind1),
        valid_type(kind2),
        valid_target(target1),
        valid_target(target2),
        signature_payload(kind1, target1, description1, changes1) == signature_payload(
            kind2,
            target2,
            description2,
            changes2,
        ),
    ensures
        kind1 == kind2,
        target1 == target2,
        description1 + ":"@ + json_compact(changes1) == description2 + ":"@ + json_compact(
            changes2,
        ),
{
    lemma_kinds();
    reveal_strlit(":");
    reveal_strlit("invariants.json");
    reveal_strlit("benchmarks.json");
    let p = signature_payload(kind1, target1, description1, changes1);
    let rest1 = description1 + ":"@ + json_compact(changes1);
    let rest2 = description2 + ":"@ + json_compact(changes2);
    lemma_no_colon(kind1);
    lemma_no_colon(kind2);
    let tail1 = target1 + ":"@ + rest1;
    let tail2 = target2 + ":"@ + rest2;
    assert(p =~= kind1 + ":"@ + tail1);
    assert(p =~= kind2 + ":"@ + tail2);
    lemma_same_head(kind1, tail1, kind2, tail2);
    assert(target1.len() == 15 && target2.len() == 15);
    assert(tail1.take(15) =~= target1 && tail2.take(15) =~= target2);
    assert(tail1.skip(16) =~= rest1 && tail2.skip(16) =~= rest2);
}

proof fn lemma_no_colon(kind: Seq<char>)
    requires
        valid_type(kind),
    ensures
        forall|i: int| 0 <= i < kind.len() ==> #[trigger] kind[i] != ':',
{
    reveal_strlit("add_test");
    reveal_strlit("remove_test");
    reveal_strlit("modify_test");
    reveal_strlit("add_dimension");
    reveal_strlit("remove_dimension");
    reveal_strlit("modify_dimension");
    reveal_strlit("update_thresholds");
}

proof fn lemma_same_head(a: Seq<char>, b: Seq<char>, c: Seq<char>, d: Seq<char>)
    requires
        a + ":"@ + b == c + ":"@ + d,
        forall|i: int| 0 <= i < a.len() ==> #[trigger] a[i] != ':',
        forall|i: int| 0 <= i < c.len() ==> #[trigger] c[i] != ':',
    ensures
        a == c,
        b == d,
{
    reveal_strlit(":");
    let p = a + ":"@ + b;
    let q = c + ":"@ + d;
    assert(p[a.len() as int] == ':');
    assert(q[c.len() as int] == ':');
    if a.len() < c.len() {
        assert(q[a.len() as int] == c[a.len() as int]);
    } else if c.len() < a.len() {
        assert(p[c.len() as int] == a[c.len() as int]);
    }
    assert(p.take(a.len() as int) =~= a);
    assert(q.take(c.len() as int) =~= c);
    assert(p.skip(a.len() as int + 1) =~= b);
    assert(q.skip(c.len() as int + 1) =~= d);
}

/// Every line of an amendment log that is not blank is one amendment, and no
/// other is.
pub proof fn law_amendments_are_counted(a: Seq<Seq<char>>, b: Seq<Seq<char>>, line: Seq<char>)
    ensures
        amendments_in(a + b) == amendments_in(a) + amendments_in(b),
        amendments_in(seq![line]) == (if trimmed(line).len() > 0 {
            1nat
        } else {
            0nat
        }),
    decreases b.len(),
{
    assert(seq![line].drop_last() =~= Seq::empty());
    assert(amendments_in(seq![line].drop_last()) == 0);
    if b.len() == 0 {
        assert(a + b =~= a);
    } else {
        law_amendments_are_counted(a, b.drop_last(), line);
        assert((a + b).drop_last() =~= a + b.drop_last());
        assert((a + b).last() == b.last());
    }
}

/// A result is what came out: the text that the file gets, or the reason.
pub proof fn law_results_are_what_came_out(
    o: AmendmentOutcome,
    r: Result<String, AmendmentError>,
)
    requires
        o.is_result(r),
    ensures
        r is Ok <==> o is Updated,
        o is Updated ==> r->Ok_0@ == o->Updated_0,
        o is Refused ==> r->Err_0 is Refused && r->Err_0->Refused_0@ == o->Refused_0,
        o is NotAnObject ==> r->Err_0 is NotAnObject,
{
}

/// Thresholds are misplaced exactly where some are to be stored in what is
/// neither an object nor null; nothing is stored there then.
pub proof fn law_misplaced_thresholds_are_not_stored(
    doc: JsonTree,
    kind: Seq<char>,
    changes: JsonTree,
)
    ensures
        thresholds_misplaced(doc, kind, changes) <==> kind == "update_thresholds"@ && !(
        doc is Object) && !(doc is Null) && (changes.get("overall_min"@) is Some || changes.get(
            "regression_tolerance"@,
        ) is Some),
        thresholds_misplaced(doc, kind, changes) ==> amended_document(
            doc,
            "benchmarks.json"@,
            kind,
            changes,
        ) is NotAnObject,
{
}

/// A proposal for another file, of another kind or without a valid signature is
/// refused, whatever it would change, and so is one whose file cannot be read or
/// is no document.
pub proof fn law_other_proposals_are_refused(
    key: Seq<u8>,
    kind: Seq<char>,
    target: Seq<char>,
    description: Seq<char>,
    changes: JsonTree,
    signature: Seq<char>,
    content: Result<Seq<char>, Seq<char>>,
)
    ensures
        target != "invariants.json"@ && target != "benchmarks.json"@ ==> proposal_outcome(
            key,
            kind,
            target,
            description,
            changes,
            signature,
            content,
        ) is Refused,
        kind != "add_test"@ && kind != "remove_test"@ && kind != "modify_test"@ && kind
            != "add_dimension"@ && kind != "remove_dimension"@ && kind != "modify_dimension"@
            && kind != "update_thresholds"@ ==> proposal_outcome(
            key,
            kind,
            target,
            description,
            changes,
            signature,
            content,
        ) is Refused,
        !is_hex(signature) || hex_decoded(signature) != hmac_sha256(
            key,
            encode_utf8(
                kind + ":"@ + target + ":"@ + description + ":"@ + json_compact(changes),
            ),
        ) ==> proposal_outcome(
            key,
            kind,
            target,
            description,
            changes,
            signature,
            content,
        ) is Refused,
        content is Err || json_parse(content->Ok_0) is Err ==> proposal_outcome(
            key,
            kind,
            target,
            description,
            changes,
            signature,
            content,
        ) is Refused,
{
}

/// A file that cannot be read or is no document is named with the reason.
pub proof fn law_unreadable_files_are_named(
    e: Seq<char>,
    text: Seq<char>,
    target: Seq<char>,
    kind: Seq<char>,
    changes: JsonTree,
)
    ensures
        amended_file(Err(e), target, kind, changes) == AmendmentOutcome::Refused(
            "Failed to read "@ + target + ": "@ + e,
        ),
        json_parse(text) is Err ==> amended_file(Ok(text), target, kind, changes)
            == AmendmentOutcome::Refused(
            "Failed to parse "@ + target + ": "@ + json_parse(text)->Err_0,
        ),
{
}

} // verus!
