//! Edits of the manifest document itself: `enki tool new` appends a
//! `[[tool]]` entry and attaches it to an agent, `enki workflow new` registers
//! a workflow file. The caller reads and parses the file and writes the
//! edited document back; everything the document holds that an edit does not
//! touch is carried through unchanged.
use crate::text::{cat3, concat, opt_str, posix_seq, str_eq, to_posix_path};
use vstd::prelude::*;

verus! {

/// A TOML value. Floats and datetimes are carried as the text they were read
/// from: no edit looks into them.
pub enum TomlValue {
    String(String),
    Integer(i64),
    Float(String),
    Boolean(bool),
    Datetime(String),
    Array(Vec<TomlValue>),
    Table(Vec<(String, TomlValue)>),
}

/// The index of the first entry at or after `i` whose key is `k`.
pub open spec fn key_index_from(es: Seq<(String, TomlValue)>, k: Seq<char>, i: int) -> Option<int>
    decreases es.len() - i,
{
    if i < 0 || i >= es.len() {
        None
    } else if es[i].0@ == k {
        Some(i)
    } else {
        key_index_from(es, k, i + 1)
    }
}

/// The index of the entry whose key is `k` (the first, should there be several).
pub open spec fn key_index(es: Seq<(String, TomlValue)>, k: Seq<char>) -> Option<int> {
    key_index_from(es, k, 0)
}

pub proof fn lemma_key_index_from(es: Seq<(String, TomlValue)>, k: Seq<char>, i: int)
    requires
        0 <= i,
    ensures
        match key_index_from(es, k, i) {
            Some(j) => i <= j < es.len() && es[j].0@ == k && forall|m: int| i <= m < j ==> es[m].0@ != k,
            None => forall|m: int| i <= m < es.len() ==> es[m].0@ != k,
        },
    decreases es.len() - i,
{
    if i < es.len() && es[i].0@ != k {
        lemma_key_index_from(es, k, i + 1);
    }
}

/// The key index depends on the keys alone.
pub proof fn lemma_key_index_same_keys(a: Seq<(String, TomlValue)>, b: Seq<(String, TomlValue)>, k: Seq<char>)
    requires
        a.len() == b.len(),
        forall|m: int| 0 <= m < a.len() ==> a[m].0@ == b[m].0@,
    ensures
        key_index(a, k) == key_index(b, k),
{
    lemma_key_index_from(a, k, 0);
    lemma_key_index_from(b, k, 0);
}

/// A new entry with another key leaves the index of `k` where it was.
pub proof fn lemma_key_index_push(a: Seq<(String, TomlValue)>, e: (String, TomlValue), k: Seq<char>)
    requires
        e.0@ != k,
    ensures
        key_index(a.push(e), k) == key_index(a, k),
{
    lemma_key_index_from(a, k, 0);
    lemma_key_index_from(a.push(e), k, 0);
    match key_index(a.push(e), k) {
        Some(j) => {
            assert(a.push(e)[j] == a[j]);
        },
        None => {},
    }
    match key_index(a, k) {
        Some(j) => {
            assert(a.push(e)[j] == a[j]);
        },
        None => {},
    }
}

/// Where the entry with key `k` stands in a table.
pub fn find_key(es: &Vec<(String, TomlValue)>, k: &str) -> (res: Option<usize>)
    ensures
        match res {
            Some(i) => key_index(es@, k@) == Some(i as int) && i < es@.len() && es@[i as int].0@ == k@,
            None => key_index(es@, k@) is None,
        },
{
    proof {
        lemma_key_index_from(es@, k@, 0);
    }
    let mut i: usize = 0;
    while i < es.len()
        invariant
            i <= es@.len(),
            key_index_from(es@, k@, 0) == key_index_from(es@, k@, i as int),
        decreases es@.len() - i,
    {
        if str_eq(es[i].0.as_str(), k) {
            return Some(i);
        }
        i = i + 1;
    }
    None
}


/// `v` is the string `s`.
pub open spec fn is_string(v: TomlValue, s: Seq<char>) -> bool {
    v matches TomlValue::String(x) && x@ == s
}

/// Some item of the array is the string `s`.
pub open spec fn has_string(items: Seq<TomlValue>, s: Seq<char>) -> bool {
    exists|j: int| 0 <= j < items.len() && is_string(#[trigger] items[j], s)
}

/// `t` is the table `{ id, kind = "python", path, symbol }` of a new tool.
pub open spec fn is_tool_entry(t: TomlValue, id: Seq<char>, path: Seq<char>, symbol: Seq<char>) -> bool {
    &&& t matches TomlValue::Table(es)
    &&& es@.len() == 4
    &&& es@[0].0@ == "id"@ && is_string(es@[0].1, id)
    &&& es@[1].0@ == "kind"@ && is_string(es@[1].1, "python"@)
    &&& es@[2].0@ == "path"@ && is_string(es@[2].1, path)
    &&& es@[3].0@ == "symbol"@ && is_string(es@[3].1, symbol)
}

/// `after` is `before` with the array at key `k` extended: the array there
/// gets `extended(items, items')`, or, without the key, a new entry `k`
/// holds an array that `extended(empty, items')` describes.
pub open spec fn array_entry_extended(
    before: Seq<(String, TomlValue)>,
    after: Seq<(String, TomlValue)>,
    k: Seq<char>,
    extended: spec_fn(Seq<TomlValue>, Seq<TomlValue>) -> bool,
) -> bool {
    match key_index(before, k) {
        Some(i) => {
            &&& before[i].1 matches TomlValue::Array(items)
            &&& after.len() == before.len()
            &&& forall|j: int| 0 <= j < before.len() && j != i ==> after[j] == before[j]
            &&& after[i].0 == before[i].0
            &&& after[i].1 matches TomlValue::Array(items2) && extended(items@, items2@)
        },
        None => {
            &&& after.len() == before.len() + 1
            &&& after.drop_last() == before
            &&& after.last().0@ == k
            &&& after.last().1 matches TomlValue::Array(items2) && extended(Seq::empty(), items2@)
        },
    }
}

/// `after` is `items` with `t` at the end.
pub open spec fn pushed(t: TomlValue) -> spec_fn(Seq<TomlValue>, Seq<TomlValue>) -> bool {
    |items: Seq<TomlValue>, after: Seq<TomlValue>| after == items.push(t)
}

/// `after` is `items` with the string `s` at the end, unless it is there already.
pub open spec fn pushed_once(s: Seq<char>) -> spec_fn(Seq<TomlValue>, Seq<TomlValue>) -> bool {
    |items: Seq<TomlValue>, after: Seq<TomlValue>|
        if has_string(items, s) {
            after == items
        } else {
            after.len() == items.len() + 1 && after.drop_last() == items && is_string(after.last(), s)
        }
}

/// An agent entry: a table whose `id` is the string `agent_id`.
pub open spec fn is_agent(v: TomlValue, agent_id: Seq<char>) -> bool {
    &&& v matches TomlValue::Table(es)
    &&& key_index(es@, "id"@) matches Some(i)
    &&& is_string(es@[i].1, agent_id)
}

/// The first agent entry at or after `i` whose id is `agent_id`.
pub open spec fn agent_index_from(items: Seq<TomlValue>, agent_id: Seq<char>, i: int) -> Option<int>
    decreases items.len() - i,
{
    if i < 0 || i >= items.len() {
        None
    } else if is_agent(items[i], agent_id) {
        Some(i)
    } else {
        agent_index_from(items, agent_id, i + 1)
    }
}

pub proof fn lemma_agent_index_from(items: Seq<TomlValue>, agent_id: Seq<char>, i: int)
    requires
        0 <= i,
    ensures
        match agent_index_from(items, agent_id, i) {
            Some(j) => i <= j < items.len() && is_agent(items[j], agent_id),
            None => true,
        },
    decreases items.len() - i,
{
    if i < items.len() && !is_agent(items[i], agent_id) {
        lemma_agent_index_from(items, agent_id, i + 1);
    }
}

/// A value that is not an array.
pub open spec fn not_array(v: TomlValue) -> bool {
    !(v is Array)
}

/// The message when the root of a manifest is not a table.
pub open spec fn root_error(label: Seq<char>) -> Seq<char> {
    label + " must contain a TOML table at the root."@
}

/// Why the tool cannot be attached to agent `a`, if it cannot.
pub open spec fn attach_error(es: Seq<(String, TomlValue)>, a: Seq<char>) -> Option<Seq<char>> {
    match key_index(es, "agent"@) {
        Some(ai) => match es[ai].1 {
            TomlValue::Array(agents) => match agent_index_from(agents@, a, 0) {
                Some(m) => match agents@[m] {
                    TomlValue::Table(at) => if key_index(at@, "tools"@) matches Some(ti) && not_array(at@[ti].1) {
                        Some("Agent '"@ + a + "' has an invalid tools entry."@)
                    } else {
                        None
                    },
                    _ => None,
                },
                None => Some("Agent '"@ + a + "' was not found in enki.toml."@),
            },
            _ => Some("Expected [[agent]] entries to be an array."@),
        },
        None => Some("Expected [[agent]] entries to be an array."@),
    }
}

/// Why adding a tool to the document fails, if it does, in the order the
/// checks are made.
pub open spec fn add_tool_error(doc: TomlValue, label: Seq<char>, attach: Option<Seq<char>>) -> Option<Seq<char>> {
    match doc {
        TomlValue::Table(es) => if key_index(es@, "tool"@) matches Some(i) && not_array(es@[i].1) {
            Some("Expected [[tool]] entries to be an array."@)
        } else {
            match attach {
                None => None,
                Some(a) => attach_error(es@, a),
            }
        },
        _ => Some(root_error(label)),
    }
}

/// `after` is `before` with the tool attached to agent `a`: the first agent
/// entry with that id lists `tool_id` among its tools, once.
pub open spec fn agent_attached(
    before: Seq<(String, TomlValue)>,
    after: Seq<(String, TomlValue)>,
    a: Seq<char>,
    tool_id: Seq<char>,
) -> bool {
    &&& key_index(before, "agent"@) matches Some(ai)
    &&& before[ai].1 matches TomlValue::Array(agents)
    &&& after.len() == before.len()
    &&& forall|j: int| 0 <= j < before.len() && j != ai ==> after[j] == before[j]
    &&& after[ai].0 == before[ai].0
    &&& after[ai].1 matches TomlValue::Array(agents2)
    &&& agent_index_from(agents@, a, 0) matches Some(m)
    &&& agents2@.len() == agents@.len()
    &&& forall|j: int| 0 <= j < agents@.len() && j != m ==> agents2@[j] == agents@[j]
    &&& agents@[m] matches TomlValue::Table(at)
    &&& agents2@[m] matches TomlValue::Table(at2)
    &&& array_entry_extended(at@, at2@, "tools"@, pushed_once(tool_id))
}


/// The table of a new tool.
pub fn new_tool_entry(tool_id: &str, path: &str, symbol: &str) -> (t: TomlValue)
    ensures
        is_tool_entry(t, tool_id@, path@, symbol@),
{
    let mut es: Vec<(String, TomlValue)> = Vec::new();
    es.push(("id".to_owned(), TomlValue::String(tool_id.to_owned())));
    es.push(("kind".to_owned(), TomlValue::String("python".to_owned())));
    es.push(("path".to_owned(), TomlValue::String(path.to_owned())));
    es.push(("symbol".to_owned(), TomlValue::String(symbol.to_owned())));
    TomlValue::Table(es)
}

/// Appends `item` to the array at key `k`, creating the array when the key
/// is missing; refuses (and changes nothing) when the key holds something else.
pub fn append_to_array_entry(es: &mut Vec<(String, TomlValue)>, k: &str, item: TomlValue) -> (ok: bool)
    ensures
        ok == !(key_index(old(es)@, k@) matches Some(i) && not_array(old(es)@[i].1)),
        ok ==> array_entry_extended(old(es)@, final(es)@, k@, pushed(item)),
        !ok ==> final(es)@ == old(es)@,
{
    match find_key(es, k) {
        Some(i) => {
            let is_array = match &es[i].1 {
                TomlValue::Array(_) => true,
                _ => false,
            };
            if !is_array {
                return false;
            }
            let ghost before = es@;
            let (key, v) = es.remove(i);
            match v {
                TomlValue::Array(mut items) => {
                    let ghost old_items = items@;
                    items.push(item);
                    es.insert(i, (key, TomlValue::Array(items)));
                    proof {
                        assert(es@ =~= before.update(i as int, es@[i as int]));
                        assert(pushed(item)(old_items, items@));
                    }
                },
                _ => {
                    es.insert(i, (key, v));
                },
            }
            true
        },
        None => {
            let mut items: Vec<TomlValue> = Vec::new();
            items.push(item);
            let ghost before = es@;
            es.push((k.to_owned(), TomlValue::Array(items)));
            proof {
                assert(es@.drop_last() =~= before);
                assert(pushed(item)(Seq::empty(), items@)) by {
                    assert(items@ =~= Seq::<TomlValue>::empty().push(item));
                }
            }
            true
        },
    }
}


/// Whether some item of the array is the string `s`.
pub fn contains_string_value(items: &Vec<TomlValue>, s: &str) -> (res: bool)
    ensures
        res == has_string(items@, s@),
{
    let mut j: usize = 0;
    while j < items.len()
        invariant
            j <= items@.len(),
            forall|m: int| 0 <= m < j ==> !is_string(#[trigger] items@[m], s@),
        decreases items@.len() - j,
    {
        match &items[j] {
            TomlValue::String(x) => {
                if str_eq(x.as_str(), s) {
                    return true;
                }
            },
            _ => {},
        }
        j = j + 1;
    }
    false
}

/// Adds the string `s` to the array at key `k` unless it is there already,
/// creating the array when the key is missing; refuses (and changes nothing)
/// when the key holds something else.
pub fn append_string_once(es: &mut Vec<(String, TomlValue)>, k: &str, s: &str) -> (ok: bool)
    ensures
        ok == !(key_index(old(es)@, k@) matches Some(i) && not_array(old(es)@[i].1)),
        ok ==> array_entry_extended(old(es)@, final(es)@, k@, pushed_once(s@)),
        !ok ==> final(es)@ == old(es)@,
{
    match find_key(es, k) {
        Some(i) => {
            let is_array = match &es[i].1 {
                TomlValue::Array(_) => true,
                _ => false,
            };
            if !is_array {
                return false;
            }
            let ghost before = es@;
            let (key, v) = es.remove(i);
            match v {
                TomlValue::Array(mut items) => {
                    let ghost old_items = items@;
                    if !contains_string_value(&items, s) {
                        items.push(TomlValue::String(s.to_owned()));
                        proof {
                            assert(items@.drop_last() =~= old_items);
                        }
                    }
                    es.insert(i, (key, TomlValue::Array(items)));
                    proof {
                        assert(es@ =~= before.update(i as int, es@[i as int]));
                        assert(pushed_once(s@)(old_items, items@));
                    }
                },
                _ => {
                    es.insert(i, (key, v));
                },
            }
            true
        },
        None => {
            let mut items: Vec<TomlValue> = Vec::new();
            items.push(TomlValue::String(s.to_owned()));
            let ghost before = es@;
            es.push((k.to_owned(), TomlValue::Array(items)));
            proof {
                assert(es@.drop_last() =~= before);
                assert(!has_string(Seq::<TomlValue>::empty(), s@));
                assert(items@.drop_last() =~= Seq::<TomlValue>::empty());
                assert(pushed_once(s@)(Seq::empty(), items@));
            }
            true
        },
    }
}


/// Whether `v` is an agent entry with id `agent_id`.
pub fn agent_has_id(v: &TomlValue, agent_id: &str) -> (res: bool)
    ensures
        res == is_agent(*v, agent_id@),
{
    match v {
        TomlValue::Table(es) => match find_key(es, "id") {
            Some(i) => match &es[i].1 {
                TomlValue::String(x) => str_eq(x.as_str(), agent_id),
                _ => false,
            },
            None => false,
        },
        _ => false,
    }
}

/// Lists `tool_id` among the tools of the first agent entry with id
/// `agent_id`.
pub fn attach_to_agent(es: &mut Vec<(String, TomlValue)>, agent_id: &str, tool_id: &str) -> (res: Result<(), String>)
    ensures
        match res {
            Ok(()) => attach_error(old(es)@, agent_id@) is None && agent_attached(
                old(es)@,
                final(es)@,
                agent_id@,
                tool_id@,
            ),
            Err(e) => attach_error(old(es)@, agent_id@) == Some(e@),
        },
{
    let ai = match find_key(es, "agent") {
        Some(ai) => ai,
        None => {
            return Err("Expected [[agent]] entries to be an array.".to_owned());
        },
    };
    let is_array = match &es[ai].1 {
        TomlValue::Array(_) => true,
        _ => false,
    };
    if !is_array {
        return Err("Expected [[agent]] entries to be an array.".to_owned());
    }
    let ghost before = es@;
    let (ak, av) = es.remove(ai);
    let mut agents = match av {
        TomlValue::Array(agents) => agents,
        _ => {
            return Err("Expected [[agent]] entries to be an array.".to_owned());
        },
    };
    let ghost old_agents = agents@;
    let mut m: usize = 0;
    let mut found = false;
    while m < agents.len() && !found
        invariant
            agents@ == old_agents,
            m <= agents@.len(),
            agent_index_from(agents@, agent_id@, 0) == agent_index_from(agents@, agent_id@, m as int),
            found ==> m < agents@.len() && is_agent(agents@[m as int], agent_id@),
        decreases agents@.len() - m, if found { 0int } else { 1int },
    {
        if agent_has_id(&agents[m], agent_id) {
            found = true;
        } else {
            m = m + 1;
        }
    }
    if !found {
        return Err(cat3("Agent '", agent_id, "' was not found in enki.toml."));
    }
    let agent = agents.remove(m);
    let mut at = match agent {
        TomlValue::Table(at) => at,
        _ => {
            return Err(cat3("Agent '", agent_id, "' was not found in enki.toml."));
        },
    };
    let ghost old_at = at@;
    if !append_string_once(&mut at, "tools", tool_id) {
        return Err(cat3("Agent '", agent_id, "' has an invalid tools entry."));
    }
    agents.insert(m, TomlValue::Table(at));
    es.insert(ai, (ak, TomlValue::Array(agents)));
    proof {
        assert(agents@ =~= old_agents.update(m as int, agents@[m as int]));
        assert(es@ =~= before.update(ai as int, es@[ai as int]));
    }
    Ok(())
}


/// Appending to the `tool` array leaves the `agent` entry where and what it was.
proof fn lemma_tool_step_keeps_agents(
    before: Seq<(String, TomlValue)>,
    after: Seq<(String, TomlValue)>,
    t: TomlValue,
)
    requires
        array_entry_extended(before, after, "tool"@, pushed(t)),
    ensures
        key_index(after, "agent"@) == key_index(before, "agent"@),
        key_index(before, "agent"@) matches Some(ai) ==> after[ai] == before[ai],
{
    reveal_strlit("tool");
    reveal_strlit("agent");
    assert("tool"@ != "agent"@) by {
        assert("tool"@[0] != "agent"@[0]);
    }
    lemma_key_index_from(before, "agent"@, 0);
    match key_index(before, "tool"@) {
        Some(i) => {
            assert forall|m: int| 0 <= m < before.len() implies before[m].0@ == after[m].0@ by {
                if m != i {
                    assert(after[m] == before[m]);
                }
            }
            lemma_key_index_same_keys(before, after, "agent"@);
            if let Some(ai) = key_index(before, "agent"@) {
                lemma_key_index_from(before, "tool"@, 0);
                assert(ai != i);
            }
        },
        None => {
            assert(after == before.push(after.last()));
            lemma_key_index_push(before, after.last(), "agent"@);
            if let Some(ai) = key_index(before, "agent"@) {
                assert(after[ai] == after.drop_last()[ai]);
            }
        },
    }
}

/// `enki tool new`: the document with the new tool appended to its `[[tool]]`
/// entries (the path in `/` form) and, when asked, attached to an agent.
/// `label` names the file in the error for a document that is not a table.
pub fn add_tool_entry(
    doc: TomlValue,
    label: &str,
    tool_id: &str,
    tool_path: &str,
    symbol: &str,
    attach_agent: Option<&str>,
) -> (res: Result<TomlValue, String>)
    ensures
        match res {
            Err(e) => add_tool_error(doc, label@, opt_str(attach_agent)) == Some(e@),
            Ok(d) => {
                &&& add_tool_error(doc, label@, opt_str(attach_agent)) is None
                &&& doc matches TomlValue::Table(es)
                &&& d matches TomlValue::Table(es2)
                &&& exists|t: TomlValue, mid: Seq<(String, TomlValue)>|
                    #![trigger array_entry_extended(es@, mid, "tool"@, pushed(t))]
                    {
                        &&& is_tool_entry(t, tool_id@, posix_seq(tool_path@), symbol@)
                        &&& array_entry_extended(es@, mid, "tool"@, pushed(t))
                        &&& match opt_str(attach_agent) {
                            None => es2@ == mid,
                            Some(a) => agent_attached(mid, es2@, a, tool_id@),
                        }
                    }
            },
        },
{
    let mut es = match doc {
        TomlValue::Table(es) => es,
        _ => {
            return Err(concat(label, " must contain a TOML table at the root."));
        },
    };
    let ghost given = es@;
    let path = to_posix_path(tool_path);
    let t = new_tool_entry(tool_id, path.as_str(), symbol);
    let ghost tool = t;
    if !append_to_array_entry(&mut es, "tool", t) {
        return Err("Expected [[tool]] entries to be an array.".to_owned());
    }
    let ghost mid = es@;
    proof {
        lemma_tool_step_keeps_agents(given, mid, tool);
    }
    if let Some(a) = attach_agent {
        match attach_to_agent(&mut es, a, tool_id) {
            Ok(()) => {},
            Err(e) => {
                return Err(e);
            },
        }
    }
    proof {
        assert(array_entry_extended(given, mid, "tool"@, pushed(tool)));
    }
    Ok(TomlValue::Table(es))
}


/// `after` is `before` with the table at key `k` changed as `changed` says,
/// or, without the key, a new entry `k` holding a table that
/// `changed(empty, ..)` describes.
pub open spec fn table_entry_changed(
    before: Seq<(String, TomlValue)>,
    after: Seq<(String, TomlValue)>,
    k: Seq<char>,
    changed: spec_fn(Seq<(String, TomlValue)>, Seq<(String, TomlValue)>) -> bool,
) -> bool {
    match key_index(before, k) {
        Some(i) => {
            &&& before[i].1 matches TomlValue::Table(t)
            &&& after.len() == before.len()
            &&& forall|j: int| 0 <= j < before.len() && j != i ==> after[j] == before[j]
            &&& after[i].0 == before[i].0
            &&& after[i].1 matches TomlValue::Table(t2) && changed(t@, t2@)
        },
        None => {
            &&& after.len() == before.len() + 1
            &&& after.drop_last() == before
            &&& after.last().0@ == k
            &&& after.last().1 matches TomlValue::Table(t2) && changed(Seq::empty(), t2@)
        },
    }
}

/// The project table lists `file` among its workflow files, once.
pub open spec fn lists_workflow_file(file: Seq<char>) -> spec_fn(
    Seq<(String, TomlValue)>,
    Seq<(String, TomlValue)>,
) -> bool {
    |t: Seq<(String, TomlValue)>, t2: Seq<(String, TomlValue)>|
        array_entry_extended(t, t2, "workflow_files"@, pushed_once(file))
}

/// Why a workflow file cannot be registered in the document, if it cannot.
pub open spec fn workflow_file_error(doc: TomlValue, label: Seq<char>) -> Option<Seq<char>> {
    match doc {
        TomlValue::Table(es) => match key_index(es@, "project"@) {
            Some(i) => match es@[i].1 {
                TomlValue::Table(pt) => if key_index(pt@, "workflow_files"@) matches Some(j) && not_array(
                    pt@[j].1,
                ) {
                    Some("Expected [project].workflow_files to be an array."@)
                } else {
                    None
                },
                _ => Some("Expected [project] to be a TOML table."@),
            },
            None => None,
        },
        _ => Some(root_error(label)),
    }
}

/// `enki workflow new`: the document with `workflow_file` among the
/// `[project]` workflow files (once), creating the table and the list as
/// needed.
pub fn add_workflow_file(doc: TomlValue, label: &str, workflow_file: &str) -> (res: Result<TomlValue, String>)
    ensures
        match res {
            Err(e) => workflow_file_error(doc, label@) == Some(e@),
            Ok(d) => {
                &&& workflow_file_error(doc, label@) is None
                &&& doc matches TomlValue::Table(es)
                &&& d matches TomlValue::Table(es2)
                &&& table_entry_changed(es@, es2@, "project"@, lists_workflow_file(workflow_file@))
            },
        },
{
    let mut es = match doc {
        TomlValue::Table(es) => es,
        _ => {
            return Err(concat(label, " must contain a TOML table at the root."));
        },
    };
    let ghost before = es@;
    match find_key(&es, "project") {
        Some(i) => {
            let is_table = match &es[i].1 {
                TomlValue::Table(_) => true,
                _ => false,
            };
            if !is_table {
                return Err("Expected [project] to be a TOML table.".to_owned());
            }
            let (k, v) = es.remove(i);
            let mut pt = match v {
                TomlValue::Table(pt) => pt,
                _ => {
                    return Err("Expected [project] to be a TOML table.".to_owned());
                },
            };
            let ghost old_pt = pt@;
            if !append_string_once(&mut pt, "workflow_files", workflow_file) {
                return Err("Expected [project].workflow_files to be an array.".to_owned());
            }
            es.insert(i, (k, TomlValue::Table(pt)));
            proof {
                assert(es@ =~= before.update(i as int, es@[i as int]));
                assert(lists_workflow_file(workflow_file@)(old_pt, pt@));
            }
        },
        None => {
            let mut pt: Vec<(String, TomlValue)> = Vec::new();
            let ghost empty = pt@;
            append_string_once(&mut pt, "workflow_files", workflow_file);
            es.push(("project".to_owned(), TomlValue::Table(pt)));
            proof {
                assert(es@.drop_last() =~= before);
                assert(empty =~= Seq::<(String, TomlValue)>::empty());
                assert(lists_workflow_file(workflow_file@)(empty, pt@));
            }
        },
    }
    Ok(TomlValue::Table(es))
}

} // verus!
