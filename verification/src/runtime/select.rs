//! Choosing the agent that runs a workflow task by capabilities: exactly one
//! candidate may offer all of them; otherwise the error names the candidates
//! in sorted order.
use crate::registry::{AgentCard, AgentStatus};
use crate::text::{chars_of, cat3, cat4, clone_strings, concat, join, join_strings, str_eq, string_views};
use vstd::prelude::*;
use vstd::relations::{sorted_by, total_ordering};

verus! {

broadcast use vstd::seq_lib::group_to_multiset_ensures;

// ---------------------------------------------------------------------------
// Ordering text
// ---------------------------------------------------------------------------

/// Lexicographic order on character sequences by code point, which is the
/// order of `str`'s `Ord` (UTF-8 preserves code point order).
pub open spec fn text_le(a: Seq<char>, b: Seq<char>) -> bool
    decreases a.len(),
{
    if a.len() == 0 {
        true
    } else if b.len() == 0 {
        false
    } else if a[0] != b[0] {
        a[0] < b[0]
    } else {
        text_le(a.drop_first(), b.drop_first())
    }
}

pub open spec fn text_order() -> spec_fn(Seq<char>, Seq<char>) -> bool {
    |a: Seq<char>, b: Seq<char>| text_le(a, b)
}

proof fn lemma_text_le_reflexive(a: Seq<char>)
    ensures
        text_le(a, a),
    decreases a.len(),
{
    if a.len() > 0 {
        lemma_text_le_reflexive(a.drop_first());
    }
}

proof fn lemma_text_le_antisymmetric(a: Seq<char>, b: Seq<char>)
    requires
        text_le(a, b),
        text_le(b, a),
    ensures
        a == b,
    decreases a.len(),
{
    if a.len() > 0 && b.len() > 0 {
        lemma_text_le_antisymmetric(a.drop_first(), b.drop_first());
        assert(a =~= seq![a[0]] + a.drop_first());
        assert(b =~= seq![b[0]] + b.drop_first());
    }
}

proof fn lemma_text_le_transitive(a: Seq<char>, b: Seq<char>, c: Seq<char>)
    requires
        text_le(a, b),
        text_le(b, c),
    ensures
        text_le(a, c),
    decreases a.len(),
{
    if a.len() > 0 && b.len() > 0 && c.len() > 0 {
        if a[0] == b[0] && b[0] == c[0] {
            lemma_text_le_transitive(a.drop_first(), b.drop_first(), c.drop_first());
        }
    }
}

proof fn lemma_text_le_total(a: Seq<char>, b: Seq<char>)
    ensures
        text_le(a, b) || text_le(b, a),
    decreases a.len(),
{
    if a.len() > 0 && b.len() > 0 && a[0] == b[0] {
        lemma_text_le_total(a.drop_first(), b.drop_first());
    }
}

/// Text order is a total order.
pub proof fn lemma_text_order_total()
    ensures
        total_ordering(text_order()),
{
    assert forall|x: Seq<char>| #[trigger] text_order()(x, x) by {
        lemma_text_le_reflexive(x);
    }
    assert forall|x: Seq<char>, y: Seq<char>| #[trigger] text_order()(x, y) && #[trigger] text_order()(
        y,
        x,
    ) implies x == y by {
        lemma_text_le_antisymmetric(x, y);
    }
    assert forall|x: Seq<char>, y: Seq<char>, z: Seq<char>| #[trigger] text_order()(x, y)
        && #[trigger] text_order()(y, z) implies text_order()(x, z) by {
        lemma_text_le_transitive(x, y, z);
    }
    assert forall|x: Seq<char>, y: Seq<char>| #[trigger] text_order()(x, y) || #[trigger] text_order()(
        y,
        x,
    ) by {
        lemma_text_le_total(x, y);
    }
}

/// `a <= b` for strings.
pub fn str_le(a: &str, b: &str) -> (res: bool)
    ensures
        res == text_le(a@, b@),
{
    let x = chars_of(a);
    let y = chars_of(b);
    let mut i: usize = 0;
    proof {
        assert(x@.skip(0) =~= x@);
        assert(y@.skip(0) =~= y@);
    }
    while i < x.len() && i < y.len()
        invariant
            i <= x@.len(),
            i <= y@.len(),
            text_le(a@, b@) == text_le(x@.skip(i as int), y@.skip(i as int)),
            x@ == a@,
            y@ == b@,
        decreases x@.len() - i,
    {
        if x[i] != y[i] {
            return x[i] < y[i];
        }
        proof {
            assert(x@.skip(i as int).drop_first() =~= x@.skip(i + 1));
            assert(y@.skip(i as int).drop_first() =~= y@.skip(i + 1));
        }
        i = i + 1;
    }
    i == x.len()
}

/// The strings in text order.
pub fn sort_strings(v: &[String]) -> (res: Vec<String>)
    ensures
        string_views(res@) == string_views(v@).sort_by(text_order()),
{
    proof {
        lemma_text_order_total();
    }
    let mut out: Vec<String> = Vec::new();
    let mut i: usize = 0;
    while i < v.len()
        invariant
            i <= v@.len(),
            total_ordering(text_order()),
            sorted_by(string_views(out@), text_order()),
            string_views(out@).to_multiset() == string_views(v@.take(i as int)).to_multiset(),
        decreases v@.len() - i,
    {
        let x = &v[i];
        let mut pos: usize = 0;
        while pos < out.len() && str_le(out[pos].as_str(), x.as_str())
            invariant
                pos <= out@.len(),
                forall|k: int| 0 <= k < pos ==> text_le(#[trigger] out@[k]@, x@),
            decreases out@.len() - pos,
        {
            pos = pos + 1;
        }
        let ghost before = string_views(out@);
        proof {
            if pos < out@.len() {
                assert(!text_le(out@[pos as int]@, x@));
                lemma_text_le_total(out@[pos as int]@, x@);
            }
        }
        out.insert(pos, x.clone());
        proof {
            let after = string_views(out@);
            assert(after =~= before.insert(pos as int, x@));
            assert forall|a: int, b: int| 0 <= a < b < after.len() implies #[trigger] text_order()(
                after[a],
                after[b],
            ) by {
                if b < pos {
                    assert(after[a] == before[a] && after[b] == before[b]);
                } else if b == pos {
                    assert(after[a] == before[a]);
                    assert(text_le(out@[a]@, x@));
                } else if a == pos {
                    assert(after[b] == before[b - 1]);
                    if b - 1 > pos {
                        assert(text_order()(before[pos as int], before[b - 1]));
                        lemma_text_le_transitive(x@, before[pos as int], before[b - 1]);
                    }
                } else if a < pos {
                    assert(after[a] == before[a] && after[b] == before[b - 1]);
                    assert(text_le(before[a], x@));
                    if b - 1 > pos {
                        assert(text_order()(before[pos as int], before[b - 1]));
                        lemma_text_le_transitive(x@, before[pos as int], before[b - 1]);
                    }
                    lemma_text_le_transitive(before[a], x@, before[b - 1]);
                } else {
                    assert(after[a] == before[a - 1] && after[b] == before[b - 1]);
                }
            }
            assert(string_views(v@.take(i + 1)) =~= string_views(v@.take(i as int)).push(x@));
        }
        i = i + 1;
    }
    proof {
        assert(v@.take(v@.len() as int) =~= v@);
        string_views(v@).lemma_sort_by_ensures(text_order());
        vstd::seq_lib::lemma_sorted_unique(
            string_views(out@),
            string_views(v@).sort_by(text_order()),
            text_order(),
        );
    }
    out
}

// ---------------------------------------------------------------------------
// Selecting by capabilities
// ---------------------------------------------------------------------------

/// `caps` offers every capability in `required`.
pub open spec fn has_all(caps: Seq<Seq<char>>, required: Seq<Seq<char>>) -> bool {
    forall|k: int| 0 <= k < required.len() ==> caps.contains(#[trigger] required[k])
}

pub open spec fn offers(c: (String, Vec<String>), required: Seq<Seq<char>>) -> bool {
    has_all(string_views(c.1@), required)
}

/// The ids of the candidates that offer every required capability, in order.
pub open spec fn capable_ids(cands: Seq<(String, Vec<String>)>, required: Seq<Seq<char>>) -> Seq<Seq<char>> {
    cands.filter(|c: (String, Vec<String>)| offers(c, required)).map_values(|c: (String, Vec<String>)| c.0@)
}

/// The one candidate offering every required capability; with none, the
/// error is `none_prefix` and the capabilities; with several, the error
/// lists them in text order.
pub open spec fn selection_spec(
    cands: Seq<(String, Vec<String>)>,
    required: Seq<Seq<char>>,
    none_prefix: Seq<char>,
) -> Result<Seq<char>, Seq<char>> {
    let matched = capable_ids(cands, required).sort_by(text_order());
    if matched.len() == 1 {
        Ok(matched[0])
    } else if matched.len() == 0 {
        Err(none_prefix + join(required, ", "@))
    } else {
        Err("Multiple agents matched workflow capabilities "@ + join(required, ", "@) + ": "@ + join(
            matched,
            ", "@,
        ))
    }
}

fn offers_all(caps: &Vec<String>, required: &[String]) -> (res: bool)
    ensures
        res == has_all(string_views(caps@), string_views(required@)),
{
    let mut k: usize = 0;
    while k < required.len()
        invariant
            k <= required@.len(),
            forall|j: int| 0 <= j < k ==> string_views(caps@).contains(#[trigger] string_views(required@)[j]),
        decreases required@.len() - k,
    {
        if !crate::workflow::validate::contains_string(caps, &required[k]) {
            proof {
                assert(!string_views(caps@).contains(string_views(required@)[k as int]));
            }
            return false;
        }
        k = k + 1;
    }
    true
}

fn capable_candidate_ids(cands: &[(String, Vec<String>)], required: &[String]) -> (res: Vec<String>)
    ensures
        string_views(res@) == capable_ids(cands@, string_views(required@)),
{
    let ghost req = string_views(required@);
    let ghost pred = |c: (String, Vec<String>)| offers(c, req);
    let mut out: Vec<String> = Vec::new();
    let mut i: usize = 0;
    while i < cands.len()
        invariant
            i <= cands@.len(),
            req == string_views(required@),
            pred == (|c: (String, Vec<String>)| offers(c, req)),
            string_views(out@) == cands@.take(i as int).filter(pred).map_values(
                |c: (String, Vec<String>)| c.0@,
            ),
        decreases cands@.len() - i,
    {
        let ok = offers_all(&cands[i].1, required);
        let ghost prev = out@;
        if ok {
            out.push(cands[i].0.clone());
        }
        proof {
            let t = cands@.take(i + 1);
            assert(t.drop_last() =~= cands@.take(i as int));
            assert(t.last() == cands@[i as int]);
            reveal(Seq::filter);
            if ok {
                assert(string_views(out@) =~= string_views(prev).push(cands@[i as int].0@));
            } else {
                assert(out@ == prev);
            }
        }
        i = i + 1;
    }
    proof {
        assert(cands@.take(cands@.len() as int) =~= cands@);
    }
    out
}

pub open spec fn str_result_view(r: Result<String, String>) -> Result<Seq<char>, Seq<char>> {
    match r {
        Ok(s) => Ok(s@),
        Err(e) => Err(e@),
    }
}

/// Picks the agent for a task that names capabilities (see `selection_spec`).
pub fn select_by_capabilities(
    cands: &[(String, Vec<String>)],
    required: &[String],
    none_prefix: &str,
) -> (res: Result<String, String>)
    ensures
        str_result_view(res) == selection_spec(cands@, string_views(required@), none_prefix@),
{
    let ids = capable_candidate_ids(cands, required);
    let matched = sort_strings(&ids);
    if matched.len() == 1 {
        return Ok(matched[0].clone());
    }
    let caps = join_strings(required, ", ");
    if matched.len() == 0 {
        return Err(concat(none_prefix, caps.as_str()));
    }
    let names = join_strings(&matched, ", ");
    Err(cat4("Multiple agents matched workflow capabilities ", caps.as_str(), ": ", names.as_str()))
}

/// The candidates a runtime chooses among: its online agents, with their
/// capabilities, in registry order.
pub fn online_candidates(cards: &[AgentCard]) -> (res: Vec<(String, Vec<String>)>)
    ensures
        res@.map_values(|c: (String, Vec<String>)| (c.0@, string_views(c.1@))) == cards@.filter(
            |c: AgentCard| c.status == AgentStatus::Online,
        ).map_values(|c: AgentCard| (c.agent_id@, string_views(c.capabilities@))),
{
    let ghost pred = |c: AgentCard| c.status == AgentStatus::Online;
    let mut out: Vec<(String, Vec<String>)> = Vec::new();
    let mut i: usize = 0;
    while i < cards.len()
        invariant
            i <= cards@.len(),
            pred == (|c: AgentCard| c.status == AgentStatus::Online),
            out@.map_values(|c: (String, Vec<String>)| (c.0@, string_views(c.1@))) == cards@.take(
                i as int,
            ).filter(pred).map_values(|c: AgentCard| (c.agent_id@, string_views(c.capabilities@))),
        decreases cards@.len() - i,
    {
        let card = &cards[i];
        let online = card.status == AgentStatus::Online;
        let ghost prev = out@;
        if online {
            out.push((card.agent_id.clone(), clone_strings(&card.capabilities)));
        }
        proof {
            let t = cards@.take(i + 1);
            assert(t.drop_last() =~= cards@.take(i as int));
            assert(t.last() == cards@[i as int]);
            reveal(Seq::filter);
            if online {
                assert(out@.map_values(|c: (String, Vec<String>)| (c.0@, string_views(c.1@))) =~= prev.map_values(
                    |c: (String, Vec<String>)| (c.0@, string_views(c.1@)),
                ).push((card.agent_id@, string_views(card.capabilities@))));
            } else {
                assert(out@ == prev);
            }
        }
        i = i + 1;
    }
    proof {
        assert(cards@.take(cards@.len() as int) =~= cards@);
    }
    out
}

} // verus!
