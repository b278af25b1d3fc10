//! JSON values as the library reads them: a workflow's context and input,
//! and what nodes write there. A number is carried as the text JSON gives it
//! (`1`, `-3`, `2.5`, `0.0`); objects keep their keys in order.
use crate::text::{cat3, concat, join, join_strings, str_eq, string_views, summarize_spec, summarize_text};
use vstd::prelude::*;

verus! {

#[derive(Debug, PartialEq)]
pub enum JsonValue {
    Null,
    Bool(bool),
    Number(String),
    String(String),
    Array(Vec<JsonValue>),
    Object(Vec<(String, JsonValue)>),
}

/// The index of the first entry at or after `i` whose key is `k`.
pub open spec fn field_index_from(es: Seq<(String, JsonValue)>, k: Seq<char>, i: int) -> Option<int>
    decreases es.len() - i,
{
    if i < 0 || i >= es.len() {
        None
    } else if es[i].0@ == k {
        Some(i)
    } else {
        field_index_from(es, k, i + 1)
    }
}

/// The index of the entry whose key is `k` (the first, should there be several).
pub open spec fn field_index(es: Seq<(String, JsonValue)>, k: Seq<char>) -> Option<int> {
    field_index_from(es, k, 0)
}

pub proof fn lemma_field_index_from(es: Seq<(String, JsonValue)>, k: Seq<char>, i: int)
    requires
        0 <= i,
    ensures
        match field_index_from(es, k, i) {
            Some(j) => i <= j < es.len() && es[j].0@ == k && forall|m: int| i <= m < j ==> es[m].0@ != k,
            None => forall|m: int| i <= m < es.len() ==> es[m].0@ != k,
        },
    decreases es.len() - i,
{
    if i < es.len() && es[i].0@ != k {
        lemma_field_index_from(es, k, i + 1);
    }
}

/// The value of field `k`, if the object has one.
pub open spec fn field(es: Seq<(String, JsonValue)>, k: Seq<char>) -> Option<JsonValue> {
    match field_index(es, k) {
        Some(j) => Some(es[j].1),
        None => None,
    }
}

/// The text of field `k`, if it is a string.
pub open spec fn str_field(es: Seq<(String, JsonValue)>, k: Seq<char>) -> Option<Seq<char>> {
    match field(es, k) {
        Some(JsonValue::String(s)) => Some(s@),
        _ => None,
    }
}

/// Where field `k` stands in an object.
pub fn find_field(es: &Vec<(String, JsonValue)>, k: &str) -> (res: Option<usize>)
    ensures
        match res {
            Some(i) => field_index(es@, k@) == Some(i as int) && i < es@.len() && es@[i as int].0@ == k@,
            None => field_index(es@, k@) is None,
        },
{
    proof {
        lemma_field_index_from(es@, k@, 0);
    }
    let mut i: usize = 0;
    while i < es.len()
        invariant
            i <= es@.len(),
            field_index_from(es@, k@, 0) == field_index_from(es@, k@, i as int),
        decreases es@.len() - i,
    {
        if str_eq(es[i].0.as_str(), k) {
            return Some(i);
        }
        i = i + 1;
    }
    None
}

/// The value of field `k`, if the object has one.
pub fn get_field<'a>(es: &'a Vec<(String, JsonValue)>, k: &str) -> (res: Option<&'a JsonValue>)
    ensures
        match res {
            Some(v) => field(es@, k@) == Some(*v),
            None => field(es@, k@) is None,
        },
{
    match find_field(es, k) {
        Some(i) => Some(&es[i].1),
        None => None,
    }
}

/// The text of field `k`, if it is a string.
pub fn get_str_field<'a>(es: &'a Vec<(String, JsonValue)>, k: &str) -> (res: Option<&'a str>)
    ensures
        match res {
            Some(s) => str_field(es@, k@) == Some(s@),
            None => str_field(es@, k@) is None,
        },
{
    match get_field(es, k) {
        Some(JsonValue::String(s)) => Some(s.as_str()),
        _ => None,
    }
}

pub open spec fn bool_text(b: bool) -> Seq<char> {
    if b {
        "true"@
    } else {
        "false"@
    }
}

pub fn bool_to_string(b: bool) -> (res: String)
    ensures
        res@ == bool_text(b),
{
    if b {
        "true".to_owned()
    } else {
        "false".to_owned()
    }
}

/// The keys of the first `n` entries.
pub open spec fn first_keys(es: Seq<(String, JsonValue)>, n: int) -> Seq<Seq<char>> {
    es.take(n).map_values(|e: (String, JsonValue)| e.0@)
}

/// `object {a, b, c, d, ...}`: up to four keys, and `...` when there are more.
pub open spec fn keys_summary(es: Seq<(String, JsonValue)>) -> Seq<char> {
    if es.len() > 4 {
        "object {"@ + join(first_keys(es, 4), ", "@) + ", ...}"@
    } else if es.len() == 0 {
        "object {}"@
    } else {
        "object {"@ + join(first_keys(es, es.len() as int), ", "@) + "}"@
    }
}


/// A one-line summary of a value: scalars as JSON writes them, texts
/// squeezed to 160 characters, arrays by their first four items, objects by
/// their `content` or `response` text, their `joined` or `matched` value, or
/// their first four keys.
pub open spec fn summary(v: JsonValue) -> Seq<char>
    decreases v, 0int,
{
    match v {
        JsonValue::Null => "null"@,
        JsonValue::Bool(b) => bool_text(b),
        JsonValue::Number(n) => n@,
        JsonValue::String(t) => summarize_spec(t@, 160),
        JsonValue::Array(items) => {
            let shown = if items@.len() > 4 {
                4
            } else {
                items@.len() as int
            };
            let preview = join(item_summaries(items@, shown), ", "@);
            if items@.len() > 4 {
                "["@ + preview + ", ...]"@
            } else {
                "["@ + preview + "]"@
            }
        },
        JsonValue::Object(es) => match str_field(es@, "content"@) {
            Some(c) => summarize_spec(c, 160),
            None => match str_field(es@, "response"@) {
                Some(r) => summarize_spec(r, 160),
                None => match field_index(es@, "joined"@) {
                    Some(j) => {
                        proof {
                            lemma_field_index_from(es@, "joined"@, 0);
                        }
                        "joined "@ + summary(es@[j].1)
                    },
                    None => match field_index(es@, "matched"@) {
                        Some(j) => {
                            proof {
                                lemma_field_index_from(es@, "matched"@, 0);
                            }
                            "matched="@ + summary(es@[j].1)
                        },
                        None => keys_summary(es@),
                    },
                },
            },
        },
    }
}

/// The summaries of the first `n` items.
pub open spec fn item_summaries(items: Seq<JsonValue>, n: int) -> Seq<Seq<char>>
    decreases items, n,
{
    if n <= 0 || n > items.len() {
        seq![]
    } else {
        item_summaries(items, n - 1).push(summary(items[n - 1]))
    }
}


/// `object {..}` with the first keys of the object (see `keys_summary`).
pub fn summarize_keys(es: &Vec<(String, JsonValue)>) -> (res: String)
    ensures
        res@ == keys_summary(es@),
{
    let shown: usize = if es.len() > 4 {
        4
    } else {
        es.len()
    };
    let mut keys: Vec<String> = Vec::new();
    let mut i: usize = 0;
    while i < shown
        invariant
            shown <= es@.len(),
            i <= shown,
            keys@.len() == i,
            forall|k: int| 0 <= k < i ==> (#[trigger] keys@[k])@ == es@[k].0@,
        decreases shown - i,
    {
        keys.push(es[i].0.clone());
        i = i + 1;
    }
    let joined = join_strings(&keys, ", ");
    proof {
        assert(keys@.map_values(|p: String| p@) =~= first_keys(es@, shown as int));
    }
    if es.len() > 4 {
        cat3("object {", joined.as_str(), ", ...}")
    } else if es.len() == 0 {
        "object {}".to_owned()
    } else {
        cat3("object {", joined.as_str(), "}")
    }
}

/// The summaries of the first `n` items.
fn summarize_items(items: &Vec<JsonValue>, n: usize) -> (res: Vec<String>)
    requires
        n <= items@.len(),
    ensures
        string_views(res@) == item_summaries(items@, n as int),
    decreases items, n,
{
    if n == 0 {
        Vec::new()
    } else {
        let mut out = summarize_items(items, n - 1);
        proof {
            vstd::std_specs::vec::axiom_vec_index_decreases(*items, n - 1);
        }
        let part = summarize_value(&items[n - 1]);
        let ghost prev = out@;
        out.push(part);
        proof {
            assert(string_views(out@) =~= string_views(prev).push(part@));
        }
        out
    }
}

/// The one-line summary of a value (see `summary`).
pub fn summarize_value(v: &JsonValue) -> (res: String)
    ensures
        res@ == summary(*v),
    decreases v, 0int,
{
    match v {
        JsonValue::Null => "null".to_owned(),
        JsonValue::Bool(b) => bool_to_string(*b),
        JsonValue::Number(n) => n.clone(),
        JsonValue::String(t) => summarize_text(t.as_str(), 160),
        JsonValue::Array(items) => {
            let shown: usize = if items.len() > 4 {
                4
            } else {
                items.len()
            };
            let parts = summarize_items(items, shown);
            let preview = join_strings(&parts, ", ");
            proof {
                assert(parts@.map_values(|p: String| p@) =~= string_views(parts@));
            }
            if items.len() > 4 {
                cat3("[", preview.as_str(), ", ...]")
            } else {
                cat3("[", preview.as_str(), "]")
            }
        },
        JsonValue::Object(es) => {
            if let Some(c) = get_str_field(es, "content") {
                return summarize_text(c, 160);
            }
            if let Some(r) = get_str_field(es, "response") {
                return summarize_text(r, 160);
            }
            proof {
                lemma_field_index_from(es@, "joined"@, 0);
                lemma_field_index_from(es@, "matched"@, 0);
            }
            if let Some(j) = get_field(es, "joined") {
                let inner = summarize_value(j);
                return concat("joined ", inner.as_str());
            }
            if let Some(m) = get_field(es, "matched") {
                let inner = summarize_value(m);
                return concat("matched=", inner.as_str());
            }
            summarize_keys(es)
        },
    }
}


/// `a` and `b` are the same JSON value: the same kind, texts and numbers
/// with the same text, and items and entries (keys in the same order) that
/// are the same.
pub open spec fn same_json(a: JsonValue, b: JsonValue) -> bool
    decreases a, 0int,
{
    match a {
        JsonValue::Null => b is Null,
        JsonValue::Bool(x) => b matches JsonValue::Bool(y) && x == y,
        JsonValue::Number(x) => b matches JsonValue::Number(y) && x@ == y@,
        JsonValue::String(x) => b matches JsonValue::String(y) && x@ == y@,
        JsonValue::Array(x) => match b {
            JsonValue::Array(y) => x@.len() == y@.len() && same_items(x@, y@, x@.len() as int),
            _ => false,
        },
        JsonValue::Object(x) => match b {
            JsonValue::Object(y) => x@.len() == y@.len() && same_entries(x@, y@, x@.len() as int),
            _ => false,
        },
    }
}

/// The first `n` items of `x` and `y` are the same.
pub open spec fn same_items(x: Seq<JsonValue>, y: Seq<JsonValue>, n: int) -> bool
    decreases x, n,
{
    if n <= 0 || n > x.len() || n > y.len() {
        n <= 0
    } else {
        same_items(x, y, n - 1) && same_json(x[n - 1], y[n - 1])
    }
}

/// The first `n` entries of `x` and `y` have the same keys and values.
pub open spec fn same_entries(x: Seq<(String, JsonValue)>, y: Seq<(String, JsonValue)>, n: int) -> bool
    decreases x, n,
{
    if n <= 0 || n > x.len() || n > y.len() {
        n <= 0
    } else {
        same_entries(x, y, n - 1) && x[n - 1].0@ == y[n - 1].0@ && same_json(x[n - 1].1, y[n - 1].1)
    }
}

/// A copy of a value.
pub fn copy_json(v: &JsonValue) -> (res: JsonValue)
    ensures
        same_json(*v, res),
    decreases v, 0int,
{
    match v {
        JsonValue::Null => JsonValue::Null,
        JsonValue::Bool(b) => JsonValue::Bool(*b),
        JsonValue::Number(n) => JsonValue::Number(n.clone()),
        JsonValue::String(s) => JsonValue::String(s.clone()),
        JsonValue::Array(items) => {
            let out = copy_items(items, items.len());
            JsonValue::Array(out)
        },
        JsonValue::Object(es) => {
            let out = copy_entries(es, es.len());
            JsonValue::Object(out)
        },
    }
}

fn copy_items(items: &Vec<JsonValue>, n: usize) -> (res: Vec<JsonValue>)
    requires
        n <= items@.len(),
    ensures
        res@.len() == n,
        same_items(items@, res@, n as int),
    decreases items, n,
{
    if n == 0 {
        Vec::new()
    } else {
        let mut out = copy_items(items, n - 1);
        proof {
            vstd::std_specs::vec::axiom_vec_index_decreases(*items, n - 1);
        }
        let c = copy_json(&items[n - 1]);
        let ghost prev = out@;
        out.push(c);
        proof {
            assert(out@.drop_last() =~= prev);
            lemma_same_items_extend(items@, prev, out@, n - 1);
        }
        out
    }
}

/// A copy of an object's entries.
pub fn copy_entries_of(es: &Vec<(String, JsonValue)>) -> (res: Vec<(String, JsonValue)>)
    ensures
        res@.len() == es@.len(),
        same_entries(es@, res@, es@.len() as int),
{
    copy_entries(es, es.len())
}

fn copy_entries(es: &Vec<(String, JsonValue)>, n: usize) -> (res: Vec<(String, JsonValue)>)
    requires
        n <= es@.len(),
    ensures
        res@.len() == n,
        same_entries(es@, res@, n as int),
    decreases es, n,
{
    if n == 0 {
        Vec::new()
    } else {
        let mut out = copy_entries(es, n - 1);
        proof {
            vstd::std_specs::vec::axiom_vec_index_decreases(*es, n - 1);
            assert(decreases_to!(es@[n - 1] => es@[n - 1].1));
        }
        let c = copy_json(&es[n - 1].1);
        let ghost prev = out@;
        out.push((es[n - 1].0.clone(), c));
        proof {
            assert(out@.drop_last() =~= prev);
            lemma_same_entries_extend(es@, prev, out@, n - 1);
        }
        out
    }
}

proof fn lemma_same_items_extend(x: Seq<JsonValue>, y: Seq<JsonValue>, y2: Seq<JsonValue>, n: int)
    requires
        0 <= n < x.len(),
        y.len() == n,
        y2.len() == n + 1,
        y2.drop_last() == y,
        same_items(x, y, n),
        same_json(x[n], y2[n]),
    ensures
        same_items(x, y2, n + 1),
{
    lemma_same_items_prefix(x, y, y2, n);
}

proof fn lemma_same_items_prefix(x: Seq<JsonValue>, y: Seq<JsonValue>, y2: Seq<JsonValue>, m: int)
    requires
        0 <= m <= y.len(),
        y.len() < y2.len(),
        m <= x.len(),
        forall|i: int| 0 <= i < y.len() ==> y2[i] == y[i],
        same_items(x, y, m),
    ensures
        same_items(x, y2, m),
    decreases m,
{
    if m > 0 {
        lemma_same_items_prefix(x, y, y2, m - 1);
    }
}

proof fn lemma_same_entries_extend(
    x: Seq<(String, JsonValue)>,
    y: Seq<(String, JsonValue)>,
    y2: Seq<(String, JsonValue)>,
    n: int,
)
    requires
        0 <= n < x.len(),
        y.len() == n,
        y2.len() == n + 1,
        y2.drop_last() == y,
        same_entries(x, y, n),
        x[n].0@ == y2[n].0@,
        same_json(x[n].1, y2[n].1),
    ensures
        same_entries(x, y2, n + 1),
{
    lemma_same_entries_prefix(x, y, y2, n);
}

proof fn lemma_same_entries_prefix(
    x: Seq<(String, JsonValue)>,
    y: Seq<(String, JsonValue)>,
    y2: Seq<(String, JsonValue)>,
    m: int,
)
    requires
        0 <= m <= y.len(),
        y.len() < y2.len(),
        m <= x.len(),
        forall|i: int| 0 <= i < y.len() ==> y2[i] == y[i],
        same_entries(x, y, m),
    ensures
        same_entries(x, y2, m),
    decreases m,
{
    if m > 0 {
        lemma_same_entries_prefix(x, y, y2, m - 1);
    }
}

} // verus!
