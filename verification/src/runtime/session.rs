//! Numbering the requests of each session: a runtime handles one request of a
//! session at a time, and gives each the next sequence number of its session,
//! counting from 1.
use crate::runtime::types::SessionContext;
use crate::text::str_eq;
use vstd::prelude::*;

verus! {

/// The number after `n`, wrapping after `u64::MAX` as an atomic counter does.
pub open spec fn successor(n: u64) -> u64 {
    if n == u64::MAX {
        0
    } else {
        (n + 1) as u64
    }
}

/// The next sequence number of session `s`: the value of its first entry, or
/// 1 for a session not seen yet.
pub open spec fn next_of(entries: Seq<(String, u64)>, s: Seq<char>) -> u64
    decreases entries.len(),
{
    if entries.len() == 0 {
        1
    } else if entries[0].0@ == s {
        entries[0].1
    } else {
        next_of(entries.drop_first(), s)
    }
}

proof fn lemma_next_of_skip(entries: Seq<(String, u64)>, s: Seq<char>, k: int)
    requires
        0 <= k <= entries.len(),
        forall|j: int| 0 <= j < k ==> (#[trigger] entries[j]).0@ != s,
    ensures
        next_of(entries, s) == next_of(entries.skip(k), s),
    decreases k,
{
    if k > 0 {
        assert(entries.drop_first().skip(k - 1) =~= entries.skip(k));
        assert forall|j: int| 0 <= j < k - 1 implies (#[trigger] entries.drop_first()[j]).0@ != s by {
            assert(entries.drop_first()[j] == entries[j + 1]);
        }
        lemma_next_of_skip(entries.drop_first(), s, k - 1);
    } else {
        assert(entries.skip(0) =~= entries);
    }
}

proof fn lemma_next_of_update(entries: Seq<(String, u64)>, k: int, v: u64, s: Seq<char>)
    requires
        0 <= k < entries.len(),
        entries[k].0@ != s,
    ensures
        next_of(entries.update(k, (entries[k].0, v)), s) == next_of(entries, s),
    decreases entries.len(),
{
    let e2 = entries.update(k, (entries[k].0, v));
    if k == 0 {
        assert(e2.drop_first() =~= entries.drop_first());
    } else {
        assert(e2[0] == entries[0]);
        if entries[0].0@ != s {
            assert(e2.drop_first() =~= entries.drop_first().update(k - 1, (entries[k].0, v)));
            lemma_next_of_update(entries.drop_first(), k - 1, v, s);
        }
    }
}

proof fn lemma_next_of_push(entries: Seq<(String, u64)>, e: (String, u64), s: Seq<char>)
    ensures
        next_of(entries.push(e), s) == if next_of_known(entries, s) {
            next_of(entries, s)
        } else if e.0@ == s {
            e.1
        } else {
            1
        },
    decreases entries.len(),
{
    let p = entries.push(e);
    if entries.len() > 0 {
        assert(p[0] == entries[0]);
        assert(p.drop_first() =~= entries.drop_first().push(e));
        lemma_next_of_push(entries.drop_first(), e, s);
        if entries[0].0@ == s {
            assert(next_of(p, s) == entries[0].1);
        } else {
            assert(next_of(p, s) == next_of(p.drop_first(), s));
            assert(next_of_known(entries, s) == next_of_known(entries.drop_first(), s));
        }
    } else {
        assert(p.drop_first() =~= Seq::<(String, u64)>::empty());
        assert(p[0] == e);
        assert(next_of(p.drop_first(), s) == 1);
        assert(!next_of_known(entries, s));
    }
}

/// Whether session `s` has an entry.
pub open spec fn next_of_known(entries: Seq<(String, u64)>, s: Seq<char>) -> bool
    decreases entries.len(),
{
    if entries.len() == 0 {
        false
    } else if entries[0].0@ == s {
        true
    } else {
        next_of_known(entries.drop_first(), s)
    }
}

proof fn lemma_known_skip(entries: Seq<(String, u64)>, s: Seq<char>, k: int)
    requires
        0 <= k <= entries.len(),
        forall|j: int| 0 <= j < k ==> (#[trigger] entries[j]).0@ != s,
    ensures
        next_of_known(entries, s) == next_of_known(entries.skip(k), s),
    decreases k,
{
    if k > 0 {
        assert(entries.drop_first().skip(k - 1) =~= entries.skip(k));
        assert forall|j: int| 0 <= j < k - 1 implies (#[trigger] entries.drop_first()[j]).0@ != s by {
            assert(entries.drop_first()[j] == entries[j + 1]);
        }
        lemma_known_skip(entries.drop_first(), s, k - 1);
    } else {
        assert(entries.skip(0) =~= entries);
    }
}

pub struct SessionSequencer {
    entries: Vec<(String, u64)>,
}

impl SessionSequencer {
    /// The sequence number the next request of session `s` gets.
    pub closed spec fn next_sequence(&self, s: Seq<char>) -> u64 {
        next_of(self.entries@, s)
    }

    /// No session has been seen: every session starts at 1.
    pub fn new() -> (res: Self)
        ensures
            forall|s: Seq<char>| #[trigger] res.next_sequence(s) == 1,
    {
        SessionSequencer { entries: Vec::new() }
    }

    /// Admits a request of `session_id` that came on `channel_id`: it gets the
    /// session's next sequence number, and only that session's count moves on.
    pub fn acquire(&mut self, session_id: &str, channel_id: &str) -> (ctx: SessionContext)
        ensures
            ctx.session_id@ == session_id@,
            ctx.channel_id@ == channel_id@,
            ctx.sequence == old(self).next_sequence(session_id@),
            final(self).next_sequence(session_id@) == successor(ctx.sequence),
            forall|s: Seq<char>|
                s != session_id@ ==> #[trigger] final(self).next_sequence(s) == old(self).next_sequence(s),
    {
        let ghost before = self.entries@;
        let mut k: usize = 0;
        let mut found = false;
        while k < self.entries.len() && !found
            invariant
                k <= self.entries@.len(),
                self.entries@ == before,
                forall|j: int| 0 <= j < k ==> (#[trigger] self.entries@[j]).0@ != session_id@,
                found ==> k < self.entries@.len() && self.entries@[k as int].0@ == session_id@,
            decreases self.entries@.len() - k, if found { 0int } else { 1int },
        {
            if str_eq(self.entries[k].0.as_str(), session_id) {
                found = true;
            } else {
                k = k + 1;
            }
        }
        proof {
            lemma_next_of_skip(before, session_id@, k as int);
            lemma_known_skip(before, session_id@, k as int);
        }
        if found {
            let sequence = self.entries[k].1;
            let key = self.entries[k].0.clone();
            let next = if sequence == u64::MAX {
                0
            } else {
                sequence + 1
            };
            proof {
                assert(before.skip(k as int)[0] == before[k as int]);
            }
            self.entries.set(k, (key, next));
            proof {
                assert(self.entries@ =~= before.update(k as int, (before[k as int].0, next)));
                assert(self.entries@.skip(k as int)[0] == (before[k as int].0, next));
                lemma_next_of_skip(self.entries@, session_id@, k as int);
                assert forall|s: Seq<char>| s != session_id@ implies #[trigger] next_of(self.entries@, s)
                    == next_of(before, s) by {
                    lemma_next_of_update(before, k as int, next, s);
                }
            }
            SessionContext { session_id: session_id.to_owned(), channel_id: channel_id.to_owned(), sequence }
        } else {
            let entry = (session_id.to_owned(), 2u64);
            proof {
                assert(before.skip(k as int) =~= Seq::<(String, u64)>::empty());
                lemma_next_of_push(before, entry, session_id@);
                assert forall|s: Seq<char>| s != session_id@ implies #[trigger] next_of(before.push(entry), s)
                    == next_of(before, s) by {
                    lemma_next_of_push(before, entry, s);
                    lemma_known_unknown_default(before, s);
                }
            }
            self.entries.push(entry);
            SessionContext { session_id: session_id.to_owned(), channel_id: channel_id.to_owned(), sequence: 1 }
        }
    }
}

proof fn lemma_known_unknown_default(entries: Seq<(String, u64)>, s: Seq<char>)
    ensures
        !next_of_known(entries, s) ==> next_of(entries, s) == 1,
    decreases entries.len(),
{
    if entries.len() > 0 {
        lemma_known_unknown_default(entries.drop_first(), s);
    }
}

} // verus!
