//! Reading a run's context: looking values up by dotted path, whether a
//! value counts as true, and what a prompt placeholder is replaced with.
use crate::json::{field, get_field, JsonValue};
use crate::text::{find_str_from, chars_of, occurrence_from, is_blank, concat, cat3, trim_seq, lower_seq};
use crate::workflow::rules::{
    key_sources_spec, normalize_path, split_dots_from, split_path, text_truthy, string_truthy,
};
use vstd::prelude::*;

verus! {

/// The value reached from `v` by following the keys `segs` through objects.
pub open spec fn walk(v: JsonValue, segs: Seq<Seq<char>>) -> Option<JsonValue>
    decreases segs.len(),
{
    if segs.len() == 0 {
        Some(v)
    } else {
        match v {
            JsonValue::Object(es) => match field(es@, segs[0]) {
                Some(x) => walk(x, segs.drop_first()),
                None => None,
            },
            _ => None,
        }
    }
}

pub proof fn lemma_split_nonempty(s: Seq<char>, off: int)
    requires
        0 <= off <= s.len(),
    ensures
        split_dots_from(s, off).len() >= 1,
{
}

/// The value at a dotted path of the context (`a.b.c`: field `b` of field
/// `c`... of the context entry `a`); none for an empty path.
pub open spec fn context_lookup(context: Seq<(String, JsonValue)>, path: Seq<char>) -> Option<JsonValue> {
    if path.len() == 0 {
        None
    } else {
        let segs = split_dots_from(path, 0);
        match field(context, segs[0]) {
            Some(x) => walk(x, segs.drop_first()),
            None => None,
        }
    }
}

/// Follows `segs[k..]` from `cur`.
fn walk_from<'a>(cur: &'a JsonValue, segs: &Vec<String>, k: usize) -> (res: Option<&'a JsonValue>)
    requires
        k <= segs@.len(),
    ensures
        match res {
            Some(v) => walk(*cur, crate::text::string_views(segs@).skip(k as int)) == Some(*v),
            None => walk(*cur, crate::text::string_views(segs@).skip(k as int)) is None,
        },
{
    let ghost views = crate::text::string_views(segs@);
    let mut at: &JsonValue = cur;
    let mut i: usize = k;
    while i < segs.len()
        invariant
            k <= i <= segs@.len(),
            views == crate::text::string_views(segs@),
            walk(*cur, views.skip(k as int)) == walk(*at, views.skip(i as int)),
        decreases segs@.len() - i,
    {
        proof {
            assert(views.skip(i as int)[0] == segs@[i as int]@);
            assert(views.skip(i as int).drop_first() =~= views.skip(i + 1));
        }
        match at {
            JsonValue::Object(es) => match get_field(es, segs[i].as_str()) {
                Some(x) => {
                    at = x;
                },
                None => {
                    return None;
                },
            },
            _ => {
                return None;
            },
        }
        i = i + 1;
    }
    proof {
        assert(views.skip(segs@.len() as int) =~= Seq::<Seq<char>>::empty());
    }
    Some(at)
}

/// The value at a dotted path of the context (see `context_lookup`).
pub fn lookup_path<'a>(context: &'a Vec<(String, JsonValue)>, path: &str) -> (res: Option<&'a JsonValue>)
    ensures
        match res {
            Some(v) => context_lookup(context@, path@) == Some(*v),
            None => context_lookup(context@, path@) is None,
        },
{
    if path.unicode_len() == 0 {
        return None;
    }
    let segs = split_path(path);
    proof {
        lemma_split_nonempty(path@, 0);
        assert(crate::text::string_views(segs@).skip(1) =~= split_dots_from(path@, 0).drop_first());
    }
    match get_field(context, segs[0].as_str()) {
        Some(first) => walk_from(first, &segs, 1),
        None => None,
    }
}

/// The value at a dotted path of `root` (`str::split('.')`: an empty path is
/// the single key `""`).
pub fn lookup_value<'a>(root: &'a JsonValue, path: &str) -> (res: Option<&'a JsonValue>)
    ensures
        match res {
            Some(v) => walk(*root, split_dots_from(path@, 0)) == Some(*v),
            None => walk(*root, split_dots_from(path@, 0)) is None,
        },
{
    let segs = split_path(path);
    proof {
        assert(crate::text::string_views(segs@).skip(0) =~= split_dots_from(path@, 0));
    }
    walk_from(root, &segs, 0)
}

/// A number's text has a nonzero digit before any exponent: the number is
/// not zero.
pub open spec fn number_nonzero(t: Seq<char>) -> bool {
    exists|i: int|
        0 <= i < t.len() && '1' <= #[trigger] t[i] <= '9' && forall|j: int| 0 <= j < i ==> t[j] != 'e' && t[j] != 'E'
}

pub fn is_nonzero_number(t: &str) -> (res: bool)
    ensures
        res == number_nonzero(t@),
{
    let v = chars_of(t);
    let mut i: usize = 0;
    while i < v.len()
        invariant
            v@ == t@,
            i <= v@.len(),
            forall|j: int| 0 <= j < i ==> v@[j] != 'e' && v@[j] != 'E' && !('1' <= v@[j] <= '9'),
        decreases v@.len() - i,
    {
        let c = v[i];
        if c == 'e' || c == 'E' {
            proof {
                assert forall|m: int|
                    0 <= m < v@.len() && '1' <= #[trigger] v@[m] <= '9' implies !(forall|j: int|
                    0 <= j < m ==> v@[j] != 'e' && v@[j] != 'E') by {
                    if m > i {
                        assert(v@[i as int] == c);
                    }
                }
            }
            return false;
        }
        if '1' <= c && c <= '9' {
            return true;
        }
        i = i + 1;
    }
    false
}

/// Whether a value counts as true: null is false; a number unless it is
/// zero; a text as an answer (see `text_truthy`); an array or object unless
/// it is empty.
pub open spec fn truthy(v: JsonValue) -> bool {
    match v {
        JsonValue::Null => false,
        JsonValue::Bool(b) => b,
        JsonValue::Number(n) => number_nonzero(n@),
        JsonValue::String(s) => text_truthy(s@),
        JsonValue::Array(items) => items@.len() > 0,
        JsonValue::Object(es) => es@.len() > 0,
    }
}

pub fn is_truthy(v: &JsonValue) -> (res: bool)
    ensures
        res == truthy(*v),
{
    match v {
        JsonValue::Null => false,
        JsonValue::Bool(b) => *b,
        JsonValue::Number(n) => is_nonzero_number(n.as_str()),
        JsonValue::String(s) => string_truthy(s.as_str()),
        JsonValue::Array(items) => items.len() > 0,
        JsonValue::Object(es) => es.len() > 0,
    }
}

/// How a context value counts as a condition: null never holds, a boolean
/// holds exactly when it is `true`, an array or object when it is not empty,
/// a blank text never, a number whose text starts with a nonzero digit
/// always, and a number written with zeros only (and a sign or point) never.
pub proof fn law_truthiness(
    b: bool,
    items: Vec<JsonValue>,
    es: Vec<(String, JsonValue)>,
    text: String,
    number: String,
)
    ensures
        trim_seq(text@).len() == 0 ==> !truthy(JsonValue::String(text)),
        number@.len() > 0 && '1' <= number@[0] <= '9' ==> truthy(JsonValue::Number(number)),
        (forall|i: int| 0 <= i < number@.len() ==> #[trigger] number@[i] == '0' || number@[i] == '.' || number@[i]
            == '-') ==> !truthy(JsonValue::Number(number)),
        !truthy(JsonValue::Null),
        truthy(JsonValue::Bool(b)) == b,
        truthy(JsonValue::Bool(true)),
        !truthy(JsonValue::Bool(false)),
        truthy(JsonValue::Array(items)) == (items@.len() != 0),
        truthy(JsonValue::Object(es)) == (es@.len() != 0),
{
    assert(lower_seq(trim_seq(text@)).len() == trim_seq(text@).len());
    if number@.len() > 0 && '1' <= number@[0] <= '9' {
        assert(number_nonzero(number@));
    }
}

/// What a placeholder's key stands for: an `input.` key at its path in the
/// task input when that path leads somewhere, else the key in the run
/// context (without a `context.` prefix).
pub open spec fn template_source_spec(
    key: Seq<char>,
    input: JsonValue,
    context: Seq<(String, JsonValue)>,
) -> Option<JsonValue> {
    let (input_path, context_path) = key_sources_spec(key);
    if input_path matches Some(p) && walk(input, split_dots_from(p, 0)) is Some {
        walk(input, split_dots_from(input_path->0, 0))
    } else {
        context_lookup(context, context_path)
    }
}

pub fn template_source<'a>(key: &str, input: &'a JsonValue, context: &'a Vec<(String, JsonValue)>) -> (res:
    Option<&'a JsonValue>)
    ensures
        match res {
            Some(v) => template_source_spec(key@, *input, context@) == Some(*v),
            None => template_source_spec(key@, *input, context@) is None,
        },
{
    let (input_path, context_path) = crate::workflow::rules::key_sources(key);
    if let Some(p) = input_path {
        if let Some(v) = lookup_value(input, p.as_str()) {
            return Some(v);
        }
    }
    lookup_path(context, context_path.as_str())
}

/// The text a placeholder is replaced with: nothing for null, a text as it
/// is, a number or boolean as JSON writes it; `None` for an array or object,
/// which is written as compact JSON.
pub open spec fn value_text_spec(v: JsonValue) -> Option<Seq<char>> {
    match v {
        JsonValue::Null => Some(Seq::empty()),
        JsonValue::Bool(b) => Some(crate::json::bool_text(b)),
        JsonValue::Number(n) => Some(n@),
        JsonValue::String(s) => Some(s@),
        _ => None,
    }
}

pub fn value_text(v: &JsonValue) -> (res: Option<String>)
    ensures
        crate::text::opt_string(res) == value_text_spec(*v),
{
    match v {
        JsonValue::Null => Some(String::new()),
        JsonValue::Bool(b) => Some(crate::json::bool_to_string(*b)),
        JsonValue::Number(n) => Some(n.clone()),
        JsonValue::String(s) => Some(s.clone()),
        _ => None,
    }
}

/// How a placeholder value is written into a prompt: null as nothing, a
/// boolean as `true` or `false`, a text as it is, a number as its JSON
/// text; only arrays and objects are left to be written as JSON.
pub proof fn law_placeholder_text(b: bool, s: String, n: String, items: Vec<JsonValue>, es: Vec<(String, JsonValue)>)
    ensures
        value_text_spec(JsonValue::Null) == Some(Seq::<char>::empty()),
        value_text_spec(JsonValue::Bool(true)) == Some(seq!['t', 'r', 'u', 'e']),
        value_text_spec(JsonValue::Bool(false)) == Some(seq!['f', 'a', 'l', 's', 'e']),
        value_text_spec(JsonValue::Bool(b)) matches Some(t) && t.len() == (if b { 4int } else { 5int }),
        value_text_spec(JsonValue::String(s)) == Some(s@),
        value_text_spec(JsonValue::Number(n)) == Some(n@),
        value_text_spec(JsonValue::Array(items)) is None,
        value_text_spec(JsonValue::Object(es)) is None,
{
    reveal_strlit("true");
    reveal_strlit("false");
    assert("true"@ =~= seq!['t', 'r', 'u', 'e']);
    assert("false"@ =~= seq!['f', 'a', 'l', 's', 'e']);
}

/// Whether a rendered prompt gets the workflow input appended: when the
/// input is neither null nor an empty object and the template has no
/// placeholder at all.
pub open spec fn appends_input_spec(template: Seq<char>, input: JsonValue) -> bool {
    &&& !(input is Null)
    &&& !(input matches JsonValue::Object(es) && es@.len() == 0)
    &&& occurrence_from(template, "{{"@, 0) is None
}

pub fn appends_input(template: &str, input: &JsonValue) -> (res: bool)
    ensures
        res == appends_input_spec(template@, *input),
{
    let empty_or_null = match input {
        JsonValue::Null => true,
        JsonValue::Object(es) => es.len() == 0,
        _ => false,
    };
    if empty_or_null {
        return false;
    }
    let open = chars_of("{{");
    find_str_from(&chars_of(template), &open, 0).is_none()
}

/// The prompt with the workflow input (as pretty JSON) appended, after a
/// blank line when the prompt is not blank.
pub fn with_input_block(rendered: &str, input_json: &str) -> (res: String)
    ensures
        res@ == (if trim_seq(rendered@).len() == 0 {
            rendered@
        } else {
            rendered@ + "\n\n"@
        }) + "Workflow input:\n"@ + input_json@,
{
    if is_blank(rendered) {
        cat3(rendered, "Workflow input:\n", input_json)
    } else {
        let head = concat(rendered, "\n\n");
        cat3(head.as_str(), "Workflow input:\n", input_json)
    }
}

} // verus!
