//! JSON documents: a tree type with a mathematical view, and the calls that
//! read and print JSON text.

use crate::split::texts;
use crate::text::str_eq;
use vstd::prelude::*;
use vstd::string::*;

verus! {

/// A JSON value as `serde_json` holds it.
#[verifier::external_type_specification]
#[verifier::external_body]
pub struct ExValue(serde_json::Value);

/// A JSON number as `serde_json` holds it.
#[verifier::external_type_specification]
#[verifier::external_body]
pub struct ExNumber(serde_json::Number);

/// A JSON document. The keys of an object are distinct.
#[derive(Debug)]
pub enum Json {
    Null,
    Bool(bool),
    Number(serde_json::Number),
    Text(String),
    List(Vec<Json>),
    Object(Vec<(String, Json)>),
}

/// The mathematical content of a JSON document: an object is a finite map.
pub ghost enum JsonTree {
    Null,
    Bool(bool),
    Number(serde_json::Number),
    Text(Seq<char>),
    List(Seq<JsonTree>),
    Object(Map<Seq<char>, JsonTree>),
}

/// What a `serde_json::Value` holds.
pub uninterp spec fn value_contents(v: serde_json::Value) -> JsonTree;

/// What `serde_json::from_str` makes of a text: the value it denotes, or the
/// message of the error.
pub uninterp spec fn json_parse(text: Seq<char>) -> Result<JsonTree, Seq<char>>;

/// The compact notation that `serde_json::to_string` gives a value.
pub uninterp spec fn json_compact(tree: JsonTree) -> Seq<char>;

/// The indented notation that `serde_json::to_string_pretty` gives a value.
pub uninterp spec fn json_pretty(tree: JsonTree) -> Seq<char>;

/// The value of a number that is a non-negative integer within 64 bits.
pub uninterp spec fn number_as_u64(n: serde_json::Number) -> Option<u64>;

/// The text denotes the document.
pub open spec fn denotes(text: Seq<char>, t: JsonTree) -> bool {
    json_parse(text) is Ok && json_parse(text)->Ok_0 == t
}

/// The notation of a number reads back as the number. Of a fraction that need
/// not be so.
pub open spec fn number_reads_back(n: serde_json::Number) -> bool {
    denotes(json_compact(JsonTree::Number(n)), JsonTree::Number(n))
}

/// The document nests lists and objects at most `depth` deep, its numbers read
/// back, and no object has the key by which `serde_json` marks text that it is
/// still to read.
pub open spec fn survives(t: JsonTree, depth: nat) -> bool
    decreases depth,
{
    match t {
        JsonTree::Number(n) => number_reads_back(n),
        JsonTree::List(v) => {
            &&& depth > 0
            &&& forall|i: int|
                0 <= i < v.len() ==> survives(#[trigger] v[i], (depth - 1) as nat)
        },
        JsonTree::Object(m) => {
            &&& depth > 0
            &&& !m.contains_key("$serde_json::private::RawValue"@)
            &&& forall|k: Seq<char>| #[trigger]
                m.contains_key(k) ==> survives(m[k], (depth - 1) as nat)
        },
        _ => true,
    }
}

/// The notation of a document reads back as the document.
pub open spec fn reads_back(t: JsonTree) -> bool {
    survives(t, 127)
}

/// The map that a list of entries stands for.
pub open spec fn entries_map(s: Seq<(Seq<char>, JsonTree)>) -> Map<Seq<char>, JsonTree>
    decreases s.len(),
{
    if s.len() == 0 {
        Map::empty()
    } else {
        entries_map(s.drop_last()).insert(s.last().0, s.last().1)
    }
}

/// No key occurs twice in a list of entries.
pub open spec fn distinct_keys(s: Seq<(String, Json)>) -> bool {
    forall|i: int, j: int|
        #![trigger s[i], s[j]]
        0 <= i < j < s.len() ==> s[i].0@ != s[j].0@
}

impl Json {
    /// The content of the document.
    pub open spec fn tree(self) -> JsonTree
        decreases self, 0nat,
    {
        match self {
            Json::Null => JsonTree::Null,
            Json::Bool(b) => JsonTree::Bool(b),
            Json::Number(n) => JsonTree::Number(n),
            Json::Text(s) => JsonTree::Text(s@),
            Json::List(v) => JsonTree::List(
                Seq::new(
                    v@.len(),
                    |i: int|
                        if 0 <= i < v@.len() {
                            v[i].tree()
                        } else {
                            JsonTree::Null
                        },
                ),
            ),
            Json::Object(v) => JsonTree::Object(Json::object_map(v, v@.len())),
        }
    }

    /// The map that the first `n` entries of an object stand for.
    pub open spec fn object_map(v: Vec<(String, Json)>, n: nat) -> Map<Seq<char>, JsonTree>
        decreases v, n,
    {
        if n == 0 || n > v@.len() {
            Map::empty()
        } else {
            Json::object_map(v, (n - 1) as nat).insert(v[n - 1].0@, v[n - 1].1.tree())
        }
    }

    /// Keys are distinct in every object of the document.
    pub open spec fn wf(self) -> bool
        decreases self,
    {
        match self {
            Json::List(v) => forall|i: int| 0 <= i < v@.len() ==> (#[trigger] v[i]).wf(),
            Json::Object(v) => {
                &&& distinct_keys(v@)
                &&& forall|i: int| 0 <= i < v@.len() ==> (#[trigger] v[i]).1.wf()
            },
            _ => true,
        }
    }
}

/// The entries of an object with the contents of the values.
pub open spec fn entry_trees(s: Seq<(String, Json)>) -> Seq<(Seq<char>, JsonTree)> {
    Seq::new(
        s.len(),
        |i: int|
            if 0 <= i < s.len() {
                (s[i].0@, s[i].1.tree())
            } else {
                (Seq::empty(), JsonTree::Null)
            },
    )
}

/// The contents of the elements of a list.
pub open spec fn list_trees(s: Seq<Json>) -> Seq<JsonTree> {
    Seq::new(
        s.len(),
        |i: int|
            if 0 <= i < s.len() {
                s[i].tree()
            } else {
                JsonTree::Null
            },
    )
}

/// The map of the first entries of an object, by the entries' contents.
proof fn lemma_object_map(v: Vec<(String, Json)>, n: nat)
    requires
        n <= v@.len(),
    ensures
        Json::object_map(v, n) == entries_map(entry_trees(v@.take(n as int))),
    decreases n,
{
    if n > 0 {
        lemma_object_map(v, (n - 1) as nat);
        let s = v@.take(n as int);
        assert(entry_trees(s).drop_last() =~= entry_trees(v@.take(n - 1)));
    }
}

/// The content of a list and of an object, by their elements.
pub proof fn lemma_tree(j: Json)
    ensures
        j matches Json::List(v) ==> j.tree() == JsonTree::List(list_trees(v@)),
        j matches Json::Object(v) ==> j.tree() == JsonTree::Object(
            entries_map(entry_trees(v@)),
        ),
{
    match j {
        Json::List(v) => {
            assert(j.tree()->List_0 =~= list_trees(v@));
        },
        Json::Object(v) => {
            lemma_object_map(v, v@.len());
            assert(v@.take(v@.len() as int) =~= v@);
        },
        _ => {},
    }
}

impl JsonTree {
    /// The value under a key, where the tree is an object that has it.
    pub open spec fn get(self, key: Seq<char>) -> Option<JsonTree> {
        match self {
            JsonTree::Object(m) => if m.contains_key(key) {
                Some(m[key])
            } else {
                None
            },
            _ => None,
        }
    }

    /// The characters of a string value.
    pub open spec fn as_text(self) -> Option<Seq<char>> {
        match self {
            JsonTree::Text(s) => Some(s),
            _ => None,
        }
    }

    /// The string under a key, if there is one.
    pub open spec fn get_text(self, key: Seq<char>) -> Option<Seq<char>> {
        match self.get(key) {
            Some(t) => t.as_text(),
            None => None,
        }
    }

    /// The elements of a list value.
    pub open spec fn as_list(self) -> Option<Seq<JsonTree>> {
        match self {
            JsonTree::List(v) => Some(v),
            _ => None,
        }
    }

    /// The list under a key, if there is one.
    pub open spec fn get_list(self, key: Seq<char>) -> Option<Seq<JsonTree>> {
        match self.get(key) {
            Some(t) => t.as_list(),
            None => None,
        }
    }

    /// The object with `value` stored under `key`.
    pub open spec fn set(self, key: Seq<char>, value: JsonTree) -> JsonTree {
        match self {
            JsonTree::Object(m) => JsonTree::Object(m.insert(key, value)),
            other => other,
        }
    }
}

/// A key is in the map exactly when an entry has it, and with distinct keys
/// each entry gives the value under its key.
pub proof fn lemma_entries_map(s: Seq<(String, Json)>)
    ensures
        forall|k: Seq<char>| #[trigger]
            entries_map(entry_trees(s)).contains_key(k) <==> exists|i: int|
                0 <= i < s.len() && (#[trigger] s[i]).0@ == k,
        distinct_keys(s) ==> forall|i: int|
            0 <= i < s.len() ==> entries_map(entry_trees(s)).contains_key(s[i].0@) && entries_map(
                entry_trees(s),
            )[(#[trigger] s[i]).0@] == s[i].1.tree(),
    decreases s.len(),
{
    if s.len() == 0 {
    } else {
        let d = s.drop_last();
        lemma_entries_map(d);
        assert(entry_trees(s).drop_last() =~= entry_trees(d));
        assert(entry_trees(s).last() == (s.last().0@, s.last().1.tree()));
        let m = entries_map(entry_trees(s));
        assert forall|k: Seq<char>| #[trigger] m.contains_key(k) <==> exists|i: int|
            0 <= i < s.len() && (#[trigger] s[i]).0@ == k by {
            if m.contains_key(k) {
                if k == s.last().0@ {
                    assert(s[s.len() - 1].0@ == k);
                } else {
                    assert(entries_map(entry_trees(d)).contains_key(k));
                    let i = choose|i: int| 0 <= i < d.len() && (#[trigger] d[i]).0@ == k;
                    assert(s[i].0@ == k);
                }
            }
            if exists|i: int| 0 <= i < s.len() && (#[trigger] s[i]).0@ == k {
                let i = choose|i: int| 0 <= i < s.len() && (#[trigger] s[i]).0@ == k;
                if i < d.len() {
                    assert(d[i].0@ == k);
                }
            }
        }
        if distinct_keys(s) {
            assert(distinct_keys(d)) by {
                assert forall|i: int, j: int|
                    #![trigger d[i], d[j]]
                    0 <= i < j < d.len() implies d[i].0@ != d[j].0@ by {
                    assert(s[i].0@ != s[j].0@);
                }
            }
            assert forall|i: int| 0 <= i < s.len() implies m.contains_key(s[i].0@) && m[(
            #[trigger] s[i]).0@] == s[i].1.tree() by {
                if i < d.len() {
                    assert(d[i] == s[i]);
                    assert(s[i].0@ != s[s.len() - 1].0@);
                }
            }
        }
    }
}

/// Replacing the value of one entry updates the map at that entry's key.
pub proof fn lemma_entries_map_update(s: Seq<(String, Json)>, at: int, e: (String, Json))
    requires
        distinct_keys(s),
        0 <= at < s.len(),
        e.0@ == s[at].0@,
    ensures
        distinct_keys(s.update(at, e)),
        entries_map(entry_trees(s.update(at, e))) == entries_map(entry_trees(s)).insert(
            e.0@,
            e.1.tree(),
        ),
{
    let u = s.update(at, e);
    assert(distinct_keys(u)) by {
        assert forall|i: int, j: int| #![trigger u[i], u[j]] 0 <= i < j < u.len() implies u[i].0@
            != u[j].0@ by {
            assert(s[i].0@ != s[j].0@);
        }
    }
    lemma_entries_map(s);
    lemma_entries_map(u);
    let a = entries_map(entry_trees(u));
    let b = entries_map(entry_trees(s)).insert(e.0@, e.1.tree());
    assert forall|k: Seq<char>| #[trigger] a.contains_key(k) <==> b.contains_key(k) by {
        if a.contains_key(k) {
            let i = choose|i: int| 0 <= i < u.len() && (#[trigger] u[i]).0@ == k;
            assert(s[i].0@ == k);
        }
        if b.contains_key(k) {
            if k == e.0@ {
                assert(u[at].0@ == k);
            } else {
                let i = choose|i: int| 0 <= i < s.len() && (#[trigger] s[i]).0@ == k;
                assert(u[i].0@ == k);
            }
        }
    }
    assert forall|k: Seq<char>| #[trigger] a.contains_key(k) implies a[k] == b[k] by {
        let i = choose|i: int| 0 <= i < u.len() && (#[trigger] u[i]).0@ == k;
        if i != at {
            assert(s[i] == u[i]);
            if k == e.0@ {
                assert(s[at].0@ == s[i].0@);
                if i < at {
                    assert(s[i].0@ != s[at].0@);
                } else {
                    assert(s[at].0@ != s[i].0@);
                }
            }
        }
    }
    assert(a =~= b);
}

/// Appending an entry with a new key inserts it into the map.
pub proof fn lemma_entries_map_push(s: Seq<(String, Json)>, e: (String, Json))
    requires
        distinct_keys(s),
        forall|i: int| 0 <= i < s.len() ==> (#[trigger] s[i]).0@ != e.0@,
    ensures
        distinct_keys(s.push(e)),
        entries_map(entry_trees(s.push(e))) == entries_map(entry_trees(s)).insert(
            e.0@,
            e.1.tree(),
        ),
{
    let u = s.push(e);
    assert(u.drop_last() =~= s);
    assert(entry_trees(u).drop_last() =~= entry_trees(s));
    assert(distinct_keys(u)) by {
        assert forall|i: int, j: int| #![trigger u[i], u[j]] 0 <= i < j < u.len() implies u[i].0@
            != u[j].0@ by {
            assert(s[i].0@ != e.0@);
        }
    }
}

/// `serde_json::from_str` on a text: the value it denotes or the error's message.
#[verifier::external_body]
fn parse_value(text: &str) -> (r: Result<serde_json::Value, String>)
    ensures
        r is Ok <==> json_parse(text@) is Ok,
        r is Ok ==> value_contents(r->Ok_0) == json_parse(text@)->Ok_0,
        r is Err ==> r->Err_0@ == json_parse(text@)->Err_0,
{
    serde_json::from_str(text).map_err(|e| e.to_string())
}

/// Takes a `serde_json::Value` apart, one variant for one. The map of an object
/// has each key once.
#[verifier::external_body]
fn json_of_value(v: serde_json::Value) -> (j: Json)
    ensures
        j.wf(),
        j.tree() == value_contents(v),
{
    match v {
        serde_json::Value::Null => Json::Null,
        serde_json::Value::Bool(b) => Json::Bool(b),
        serde_json::Value::Number(n) => Json::Number(n),
        serde_json::Value::String(s) => Json::Text(s),
        serde_json::Value::Array(a) => Json::List(a.into_iter().map(json_of_value).collect()),
        serde_json::Value::Object(o) => Json::Object(
            o.into_iter().map(|(k, v)| (k, json_of_value(v))).collect(),
        ),
    }
}

/// Puts a `serde_json::Value` together, one variant for one.
#[verifier::external_body]
fn value_of_json(j: &Json) -> (v: serde_json::Value)
    requires
        j.wf(),
    ensures
        value_contents(v) == j.tree(),
{
    match j {
        Json::Null => serde_json::Value::Null,
        Json::Bool(b) => serde_json::Value::Bool(*b),
        Json::Number(n) => serde_json::Value::Number(n.clone()),
        Json::Text(s) => serde_json::Value::String(s.clone()),
        Json::List(a) => serde_json::Value::Array(a.iter().map(value_of_json).collect()),
        Json::Object(o) => serde_json::Value::Object(
            o.iter().map(|(k, v)| (k.clone(), value_of_json(v))).collect(),
        ),
    }
}

/// `serde_json::to_string` on a value. It cannot fail on a `Value`, whose keys
/// are strings. `serde_json::from_str` reads the text as the value again, where
/// the numbers allow it and the nesting stays below the limit of the reader.
#[verifier::external_body]
fn compact_value(v: &serde_json::Value) -> (s: String)
    ensures
        s@ == json_compact(value_contents(*v)),
        reads_back(value_contents(*v)) ==> denotes(s@, value_contents(*v)),
{
    serde_json::to_string(v).unwrap_or_default()
}

/// `serde_json::to_string_pretty` on a value. It cannot fail on a `Value`,
/// whose keys are strings. The text reads back like the compact one.
#[verifier::external_body]
fn pretty_value(v: &serde_json::Value) -> (s: String)
    ensures
        s@ == json_pretty(value_contents(*v)),
        reads_back(value_contents(*v)) ==> denotes(s@, value_contents(*v)),
{
    serde_json::to_string_pretty(v).unwrap_or_default()
}

/// `serde_json::Number::as_u64` on a number. The notation of an integer reads
/// back.
#[verifier::external_body]
fn number_u64(n: &serde_json::Number) -> (r: Option<u64>)
    ensures
        r == number_as_u64(*n),
        r is Some ==> number_reads_back(*n),
{
    n.as_u64()
}

/// `Clone` on a `serde_json::Number` gives the same number.
pub assume_specification[ <serde_json::Number as std::clone::Clone>::clone ](
    n: &serde_json::Number,
) -> (r: serde_json::Number)
    ensures
        r == *n,
;

impl Json {
    /// Reads a JSON text.
    pub fn parse(text: &str) -> (r: Result<Json, String>)
        ensures
            r is Ok <==> json_parse(text@) is Ok,
            r is Ok ==> r->Ok_0.wf() && r->Ok_0.tree() == json_parse(text@)->Ok_0,
            r is Err ==> r->Err_0@ == json_parse(text@)->Err_0,
    {
        match parse_value(text) {
            Ok(v) => Ok(json_of_value(v)),
            Err(e) => Err(e),
        }
    }

    /// The document in compact notation.
    pub fn compact(&self) -> (s: String)
        requires
            self.wf(),
        ensures
            s@ == json_compact(self.tree()),
            reads_back(self.tree()) ==> denotes(s@, self.tree()),
    {
        compact_value(&value_of_json(self))
    }

    /// The document in indented notation.
    pub fn pretty(&self) -> (s: String)
        requires
            self.wf(),
        ensures
            s@ == json_pretty(self.tree()),
            reads_back(self.tree()) ==> denotes(s@, self.tree()),
    {
        pretty_value(&value_of_json(self))
    }

    /// A copy of the document.
    pub fn copy(&self) -> (r: Json)
        requires
            self.wf(),
        ensures
            r.wf(),
            r.tree() == self.tree(),
        decreases self,
    {
        match self {
            Json::Null => Json::Null,
            Json::Bool(b) => Json::Bool(*b),
            Json::Number(n) => Json::Number(n.clone()),
            Json::Text(s) => Json::Text(s.clone()),
            Json::List(v) => {
                let mut out: Vec<Json> = Vec::new();
                let mut i: usize = 0;
                while i < v.len()
                    invariant
                        i <= v@.len(),
                        out@.len() == i,
                        self.wf(),
                        self is List,
                        self->List_0 == *v,
                        forall|k: int| 0 <= k < i ==> (#[trigger] out[k]).wf() && out[k].tree()
                            == v[k].tree(),
                    decreases v@.len() - i,
                {
                    assert(v[i as int].wf());
                    assert(decreases_to!(*self => *v));
                    assert(decreases_to!(*v => v[i as int]));
                    let e = v[i].copy();
                    out.push(e);
                    i += 1;
                }
                assert(list_trees(out@) =~= list_trees(v@));
                proof {
                    lemma_tree(*self);
                    lemma_tree(Json::List(out));
                }
                Json::List(out)
            },
            Json::Object(v) => {
                let mut out: Vec<(String, Json)> = Vec::new();
                let mut i: usize = 0;
                while i < v.len()
                    invariant
                        i <= v@.len(),
                        out@.len() == i,
                        self.wf(),
                        self is Object,
                        self->Object_0 == *v,
                        forall|k: int|
                            0 <= k < i ==> (#[trigger] out[k]).1.wf() && out[k].1.tree()
                                == v[k].1.tree() && out[k].0@ == v[k].0@,
                    decreases v@.len() - i,
                {
                    assert(v[i as int].1.wf());
                    assert(decreases_to!(*self => *v));
                    assert(decreases_to!(*v => v[i as int]));
                    let e = v[i].1.copy();
                    out.push((v[i].0.clone(), e));
                    i += 1;
                }
                assert(entry_trees(out@) =~= entry_trees(v@));
                proof {
                    lemma_tree(*self);
                    lemma_tree(Json::Object(out));
                }
                assert(distinct_keys(out@)) by {
                    assert forall|i: int, j: int|
                        #![trigger out@[i], out@[j]]
                        0 <= i < j < out@.len() implies out@[i].0@ != out@[j].0@ by {
                        assert(v@[i].0@ != v@[j].0@);
                    }
                }
                Json::Object(out)
            },
        }
    }

    /// The value under a key, where the document is an object that has it.
    pub fn get(&self, key: &str) -> (r: Option<&Json>)
        requires
            self.wf(),
        ensures
            r is Some <==> self.tree().get(key@) is Some,
            r is Some ==> r->Some_0.wf() && Some(r->Some_0.tree()) == self.tree().get(key@),
    {
        match self {
            Json::Object(v) => {
                proof {
                    lemma_entries_map(v@);
                    lemma_tree(*self);
                }
                let mut i: usize = 0;
                while i < v.len()
                    invariant
                        i <= v@.len(),
                        *self == Json::Object(*v),
                        self.wf(),
                        self.tree() == JsonTree::Object(entries_map(entry_trees(v@))),
                        forall|k: int| 0 <= k < i ==> (#[trigger] v@[k]).0@ != key@,
                        forall|k: int|
                            0 <= k < v@.len() ==> entries_map(entry_trees(v@)).contains_key(
                                v@[k].0@,
                            ) && entries_map(entry_trees(v@))[(#[trigger] v@[k]).0@]
                                == v@[k].1.tree(),
                    decreases v@.len() - i,
                {
                    if str_eq(v[i].0.as_str(), key) {
                        return Some(&v[i].1);
                    }
                    i += 1;
                }
                None
            },
            _ => None,
        }
    }

    /// The string that the document is.
    pub fn as_str(&self) -> (r: Option<&str>)
        ensures
            r is Some <==> self.tree().as_text() is Some,
            r is Some ==> Some(r->Some_0@) == self.tree().as_text(),
    {
        match self {
            Json::Text(s) => Some(s.as_str()),
            _ => None,
        }
    }

    /// The string under a key.
    pub fn get_str(&self, key: &str) -> (r: Option<&str>)
        requires
            self.wf(),
        ensures
            r is Some <==> self.tree().get_text(key@) is Some,
            r is Some ==> Some(r->Some_0@) == self.tree().get_text(key@),
    {
        match self.get(key) {
            Some(v) => v.as_str(),
            None => None,
        }
    }

    /// The elements under a key.
    pub fn get_list(&self, key: &str) -> (r: Option<&Vec<Json>>)
        requires
            self.wf(),
        ensures
            r is Some <==> self.tree().get_list(key@) is Some,
            r is Some ==> Some(list_trees(r->Some_0@)) == self.tree().get_list(key@),
            r is Some ==> forall|i: int|
                0 <= i < r->Some_0@.len() ==> (#[trigger] r->Some_0@[i]).wf(),
    {
        match self.get(key) {
            Some(j) => {
                proof {
                    lemma_tree(*j);
                }
                match j {
                    Json::List(v) => Some(v),
                    _ => None,
                }
            },
            None => None,
        }
    }

    /// The non-negative integer that the document is.
    pub fn as_u64(&self) -> (r: Option<u64>)
        ensures
            r == (match self.tree() {
                JsonTree::Number(n) => number_as_u64(n),
                _ => None,
            }),
            r is Some ==> reads_back(self.tree()),
    {
        match self {
            Json::Number(n) => number_u64(n),
            _ => None,
        }
    }

    /// Stores a value under a key of an object; other documents stay as they are.
    pub fn set(&mut self, key: &str, value: Json)
        requires
            old(self).wf(),
            value.wf(),
        ensures
            final(self).wf(),
            final(self).tree() == old(self).tree().set(key@, value.tree()),
    {
        proof {
            lemma_tree(*self);
        }
        match self {
            Json::Object(v) => {
                put_entry(v, key, value);
            },
            _ => {},
        }
        proof {
            lemma_tree(*self);
        }
    }
}

/// The number with the given value.
pub uninterp spec fn number_of(n: u64) -> serde_json::Number;

/// `serde_json::Number::from` on an integer; `as_u64` gives the integer back,
/// and so does reading its notation.
#[verifier::external_body]
fn number_from(n: u64) -> (r: serde_json::Number)
    ensures
        r == number_of(n),
        number_as_u64(r) == Some(n),
        number_reads_back(r),
{
    serde_json::Number::from(n)
}

/// An object without fields.
pub open spec fn empty_object() -> JsonTree {
    JsonTree::Object(Map::empty())
}

/// A string, or null where there is none.
pub open spec fn text_or_null(s: Option<Seq<char>>) -> JsonTree {
    match s {
        Some(t) => JsonTree::Text(t),
        None => JsonTree::Null,
    }
}

/// A list of strings.
pub open spec fn text_list(s: Seq<Seq<char>>) -> JsonTree {
    JsonTree::List(Seq::new(s.len(), |i: int| JsonTree::Text(s[i])))
}

impl Json {
    /// An object without fields.
    pub fn object() -> (j: Json)
        ensures
            j.wf(),
            j.tree() == empty_object(),
    {
        let fields: Vec<(String, Json)> = Vec::new();
        let j = Json::Object(fields);
        proof {
            lemma_tree(j);
        }
        j
    }

    /// A string.
    pub fn text(s: &str) -> (j: Json)
        ensures
            j.wf(),
            j.tree() == JsonTree::Text(s@),
    {
        Json::Text(s.to_owned())
    }

    /// A string, or null where there is none.
    pub fn optional(s: &Option<String>) -> (j: Json)
        ensures
            j.wf(),
            j.tree() == text_or_null(match *s {
                Some(t) => Some(t@),
                None => None,
            }),
    {
        match s {
            Some(t) => Json::Text(t.clone()),
            None => Json::Null,
        }
    }

    /// A whole number.
    pub fn number(n: u64) -> (j: Json)
        ensures
            j.wf(),
            j.tree() == JsonTree::Number(number_of(n)),
            number_as_u64(number_of(n)) == Some(n),
    {
        Json::Number(number_from(n))
    }

    /// A list of strings.
    pub fn strings(v: &Vec<String>) -> (j: Json)
        ensures
            j.wf(),
            j.tree() == text_list(texts(v@)),
    {
        let mut out: Vec<Json> = Vec::new();
        let mut i: usize = 0;
        while i < v.len()
            invariant
                i <= v@.len(),
                out@.len() == i,
                forall|k: int|
                    0 <= k < i ==> (#[trigger] out@[k]).wf() && out@[k].tree() == JsonTree::Text(
                        v@[k]@,
                    ),
            decreases v@.len() - i,
        {
            out.push(Json::Text(v[i].clone()));
            i += 1;
        }
        let j = Json::List(out);
        proof {
            lemma_tree(j);
            assert(list_trees(out@) =~= Seq::new(
                texts(v@).len(),
                |i: int| JsonTree::Text(texts(v@)[i]),
            ));
        }
        j
    }
}

/// Stores a value under a key in a list of entries.
pub fn put_entry(v: &mut Vec<(String, Json)>, key: &str, value: Json)
    requires
        distinct_keys(old(v)@),
        forall|i: int| 0 <= i < old(v)@.len() ==> (#[trigger] old(v)@[i]).1.wf(),
        value.wf(),
    ensures
        distinct_keys(final(v)@),
        forall|i: int| 0 <= i < final(v)@.len() ==> (#[trigger] final(v)@[i]).1.wf(),
        entries_map(entry_trees(final(v)@)) == entries_map(entry_trees(old(v)@)).insert(
            key@,
            value.tree(),
        ),
{
    let mut i: usize = 0;
    while i < v.len()
        invariant
            i <= v@.len(),
            v@ == old(v)@,
            distinct_keys(v@),
            value.wf(),
            forall|k: int| 0 <= k < v@.len() ==> (#[trigger] v@[k]).1.wf(),
            forall|k: int| 0 <= k < i ==> (#[trigger] v@[k]).0@ != key@,
        decreases v@.len() - i,
    {
        if str_eq(v[i].0.as_str(), key) {
            let e = (key.to_owned(), value);
            proof {
                lemma_entries_map_update(v@, i as int, e);
            }
            v.set(i, e);
            return;
        }
        i += 1;
    }
    let e = (key.to_owned(), value);
    proof {
        lemma_entries_map_push(v@, e);
    }
    v.push(e);
}

/// What is stored under a key is found under it, and nothing else changes. Only
/// an object stores anything.
pub proof fn law_set_is_found(t: JsonTree, key: Seq<char>, value: JsonTree, other: Seq<char>)
    requires
        other != key,
    ensures
        t is Object ==> t.set(key, value).get(key) == Some(value),
        t is Object ==> t.set(key, value) is Object,
        t.set(key, value).get(other) == t.get(other),
        !(t is Object) ==> t.set(key, value) == t && t.get(key) is None,
        t.get_text(key) is Some <==> t.get(key) == Some(
            JsonTree::Text(t.get_text(key)->Some_0),
        ),
        t.get_list(key) is Some <==> t.get(key) == Some(
            JsonTree::List(t.get_list(key)->Some_0),
        ),
        empty_object() is Object && empty_object().get(key) is None,
{
}

/// A list of strings holds each of them in its place, and a missing string is null.
pub proof fn law_texts_are_listed(s: Seq<Seq<char>>, i: int, text: Seq<char>)
    requires
        0 <= i < s.len(),
    ensures
        text_list(s).as_list() is Some,
        text_list(s).as_list()->Some_0.len() == s.len(),
        text_list(s).as_list()->Some_0[i] == JsonTree::Text(s[i]),
        text_or_null(Some(text)).as_text() == Some(text),
        text_or_null(None) is Null,
{
}

} // verus!
