//! The expiry sweep: a periodic, bounded purge of pending changes whose
//! lifetime has elapsed.

use vstd::prelude::*;
use crate::types::{Change, strictly_increasing};
use crate::state::MultiOwnership;

verus! {

/// The ids the sweep removes at height `n`: walking `ids` front to back
/// (oldest first), every id whose change has expired, until `budget` of them
/// have been taken.
pub open spec fn swept_ids(changes: Map<u64, Change>, n: u64, ids: Seq<u64>, budget: int) -> Seq<
    u64,
>
    decreases ids.len(),
{
    if ids.len() == 0 || budget <= 0 {
        Seq::empty()
    } else if changes[ids[0]].expires_at <= n {
        seq![ids[0]] + swept_ids(changes, n, ids.drop_first(), budget - 1)
    } else {
        swept_ids(changes, n, ids.drop_first(), budget)
    }
}

/// The ids the sweep leaves pending at height `n`: the complement of
/// `swept_ids`, in their original order.
pub open spec fn kept_ids(changes: Map<u64, Change>, n: u64, ids: Seq<u64>, budget: int) -> Seq<
    u64,
>
    decreases ids.len(),
{
    if ids.len() == 0 {
        Seq::empty()
    } else if budget <= 0 {
        ids
    } else if changes[ids[0]].expires_at <= n {
        kept_ids(changes, n, ids.drop_first(), budget - 1)
    } else {
        seq![ids[0]] + kept_ids(changes, n, ids.drop_first(), budget)
    }
}

/// The spaces the removed changes belonged to.
pub open spec fn spaces_of(changes: Map<u64, Change>, ids: Seq<u64>) -> Set<u64> {
    ids.map_values(|c: u64| changes[c].space_id).to_set()
}

/// How a sweep at height `n` relates the state after (`post`) to the state
/// before (`pre`): the swept changes leave the pending set, the pending
/// pointers of their spaces, and the store entirely — exactly as a
/// cancellation would drop them — and nothing else moves.
pub open spec fn sweep_ok(pre: MultiOwnership, post: MultiOwnership, n: u64) -> bool {
    let budget = pre.config.max_expired_changes_per_sweep as int;
    let removed = swept_ids(pre.changes@, n, pre.pending_ids@, budget);
    &&& post.config == pre.config
    &&& post.block_number == pre.block_number
    &&& post.next_id == pre.next_id
    &&& post.spaces@ == pre.spaces@
    &&& post.owned@ == pre.owned@
    &&& post.executed@ == pre.executed@
    &&& post.pending_ids@ == kept_ids(pre.changes@, n, pre.pending_ids@, budget)
    &&& post.changes@ == pre.changes@.remove_keys(removed.to_set())
    &&& post.pending_by_space@ == pre.pending_by_space@.remove_keys(
        spaces_of(pre.changes@, removed),
    )
}

pub proof fn lemma_drop_first_membership(s: Seq<u64>)
    requires
        s.len() > 0,
    ensures
        forall|y: u64| s.contains(y) <==> (s[0] == y || s.drop_first().contains(y)),
{
    assert forall|y: u64| s.contains(y) implies (s[0] == y || s.drop_first().contains(y)) by {
        let k = choose|k: int| 0 <= k < s.len() && s[k] == y;
        if k > 0 {
            assert(s.drop_first()[k - 1] == y);
        }
    }
    assert forall|y: u64| s[0] == y || s.drop_first().contains(y) implies s.contains(y) by {
        if s[0] == y {
            assert(s.contains(y));
        } else {
            let k = choose|k: int| 0 <= k < s.drop_first().len() && s.drop_first()[k] == y;
            assert(s[k + 1] == y);
        }
    }
}

/// What the sweep selects: only expired members of `ids`, at most `budget`
/// many; what it keeps: exactly the rest, still in ascending order; and when
/// the budget was not exhausted, nothing expired is left.
pub proof fn lemma_sweep_properties(changes: Map<u64, Change>, n: u64, ids: Seq<u64>, budget: int)
    requires
        strictly_increasing(ids),
        budget >= 0,
    ensures
        forall|c: u64| #[trigger]
            swept_ids(changes, n, ids, budget).contains(c) ==> (ids.contains(c)
                && changes[c].expires_at <= n),
        forall|c: u64| #[trigger]
            kept_ids(changes, n, ids, budget).contains(c) <==> (ids.contains(c) && !swept_ids(
                changes,
                n,
                ids,
                budget,
            ).contains(c)),
        strictly_increasing(kept_ids(changes, n, ids, budget)),
        swept_ids(changes, n, ids, budget).len() <= budget,
        swept_ids(changes, n, ids, budget).len() < budget ==> forall|c: u64| #[trigger]
            kept_ids(changes, n, ids, budget).contains(c) ==> changes[c].expires_at > n,
    decreases ids.len(),
{
    let swept = swept_ids(changes, n, ids, budget);
    let kept = kept_ids(changes, n, ids, budget);
    if ids.len() == 0 {
        assert(forall|c: u64| !swept.contains(c));
        assert(forall|c: u64| !kept.contains(c));
        assert(forall|c: u64| !ids.contains(c));
    } else if budget <= 0 {
        assert(forall|c: u64| !swept.contains(c));
        assert(kept == ids);
    } else {
        let d = ids.drop_first();
        let head = ids[0];
        assert(strictly_increasing(d)) by {
            assert forall|p: int, q: int| 0 <= p < q < d.len() implies d[p] < d[q] by {
                assert(d[p] == ids[p + 1] && d[q] == ids[q + 1]);
            }
        }
        assert(!d.contains(head)) by {
            if d.contains(head) {
                let k = choose|k: int| 0 <= k < d.len() && d[k] == head;
                assert(ids[k + 1] == head);
                assert(ids[0] < ids[k + 1]);
            }
        }
        lemma_drop_first_membership(ids);
        assert forall|y: u64| #[trigger] d.contains(y) implies head < y by {
            let k = choose|k: int| 0 <= k < d.len() && d[k] == y;
            assert(ids[0] < ids[k + 1]);
        }
        if changes[head].expires_at <= n {
            lemma_sweep_properties(changes, n, d, budget - 1);
            let swept_d = swept_ids(changes, n, d, budget - 1);
            let kept_d = kept_ids(changes, n, d, budget - 1);
            assert(swept == seq![head] + swept_d);
            assert(kept == kept_d);
            lemma_cons_membership(swept, head, swept_d);
            assert forall|c: u64| #[trigger]
                kept.contains(c) <==> (ids.contains(c) && !swept.contains(c)) by {
                assert(swept.contains(c) <==> (c == head || swept_d.contains(c)));
                assert(kept_d.contains(c) <==> (d.contains(c) && !swept_d.contains(c)));
                assert(ids.contains(c) <==> (c == head || d.contains(c)));
                if c == head {
                    assert(!d.contains(head));
                }
            }
            assert(swept.len() == 1 + swept_d.len());
            if swept.len() < budget {
                assert(swept_d.len() < budget - 1);
                assert forall|c: u64| #[trigger]
                    kept.contains(c) implies changes[c].expires_at > n by {
                    assert(kept_d.contains(c));
                }
            }
        } else {
            lemma_sweep_properties(changes, n, d, budget);
            let swept_d = swept_ids(changes, n, d, budget);
            let kept_d = kept_ids(changes, n, d, budget);
            assert(swept == swept_d);
            assert(kept == seq![head] + kept_d);
            lemma_cons_membership(kept, head, kept_d);
            assert forall|p: int, q: int| 0 <= p < q < kept.len() implies kept[p] < kept[q] by {
                if p == 0 {
                    assert(kept[q] == kept_d[q - 1]);
                    assert(kept_d.contains(kept_d[q - 1]));
                    assert(d.contains(kept_d[q - 1]));
                } else {
                    assert(kept[p] == kept_d[p - 1] && kept[q] == kept_d[q - 1]);
                }
            }
            assert forall|c: u64| #[trigger] swept.contains(c) implies (ids.contains(c)
                && changes[c].expires_at <= n) by {
                assert(d.contains(c));
            }
            assert forall|c: u64| #[trigger]
                kept.contains(c) <==> (ids.contains(c) && !swept.contains(c)) by {
                assert(kept.contains(c) <==> (c == head || kept_d.contains(c)));
                assert(kept_d.contains(c) <==> (d.contains(c) && !swept_d.contains(c)));
                assert(ids.contains(c) <==> (c == head || d.contains(c)));
                if c == head {
                    assert(!d.contains(head));
                    if swept.contains(head) {
                        assert(d.contains(head));
                    }
                }
            }
            if swept.len() < budget {
                assert forall|c: u64| #[trigger]
                    kept.contains(c) implies changes[c].expires_at > n by {
                    if c != head {
                        assert(kept_d.contains(c));
                    }
                }
            }
        }
    }
}

pub proof fn lemma_cons_membership(s: Seq<u64>, head: u64, t: Seq<u64>)
    requires
        s == seq![head] + t,
    ensures
        forall|y: u64| #![trigger s.contains(y)] s.contains(y) <==> (y == head || t.contains(y)),
{
    assert forall|y: u64| s.contains(y) implies (y == head || t.contains(y)) by {
        let k = choose|k: int| 0 <= k < s.len() && s[k] == y;
        if k > 0 {
            assert(t[k - 1] == y);
        }
    }
    assert forall|y: u64| y == head || t.contains(y) implies s.contains(y) by {
        if y == head {
            assert(s[0] == y);
        } else {
            let k = choose|k: int| 0 <= k < t.len() && t[k] == y;
            assert(s[k + 1] == y);
        }
    }
}

impl MultiOwnership {
    /// Removes pending changes whose lifetime has elapsed at height `n`:
    /// walking the pending set oldest first, each change with
    /// `expires_at <= n` is dropped from the pending set, from its space's
    /// pending pointer, and from the store — without owner authorization —
    /// until the configured per-sweep bound is reached. What the bound leaves
    /// behind waits for the next invocation.
    #[verifier::loop_isolation(false)]
    #[verifier::rlimit(60)]
    pub fn delete_expired_changes(&mut self, n: u64)
        requires
            old(self).wf(),
        ensures
            final(self).wf(),
            sweep_ok(*old(self), *final(self), n),
    {
        let ghost pre = *self;
        let limit = self.config.max_expired_changes_per_sweep;
        let ghost budget = limit as int;
        let mut new_pending: Vec<u64> = Vec::new();
        let mut removed_count: u64 = 0;
        let ghost mut removed_seq: Seq<u64> = Seq::<u64>::empty();
        let mut i: usize = 0;
        let len = self.pending_ids.len();
        proof {
            assert(pre.pending_ids@.skip(0) =~= pre.pending_ids@);
            assert(removed_seq.to_set() =~= Set::<u64>::empty());
            assert(pre.changes@.remove_keys(Set::<u64>::empty()) =~= pre.changes@);
            assert(removed_seq.map_values(|c: u64| pre.changes@[c].space_id) =~= Seq::<
                u64,
            >::empty());
            assert(spaces_of(pre.changes@, removed_seq) =~= Set::<u64>::empty());
            assert(pre.pending_by_space@.remove_keys(Set::<u64>::empty()) =~= pre.pending_by_space@);
        }
        while i < len
            invariant
                i <= len,
                len == pre.pending_ids@.len(),
                self.config == pre.config,
                self.block_number == pre.block_number,
                self.next_id == pre.next_id,
                self.spaces == pre.spaces,
                self.owned == pre.owned,
                self.executed == pre.executed,
                self.pending_ids == pre.pending_ids,
                removed_count as int == removed_seq.len(),
                removed_count <= limit,
                swept_ids(pre.changes@, n, pre.pending_ids@, budget) == removed_seq + swept_ids(
                    pre.changes@,
                    n,
                    pre.pending_ids@.skip(i as int),
                    limit - removed_count,
                ),
                kept_ids(pre.changes@, n, pre.pending_ids@, budget) == new_pending@ + kept_ids(
                    pre.changes@,
                    n,
                    pre.pending_ids@.skip(i as int),
                    limit - removed_count,
                ),
                self.changes@ == pre.changes@.remove_keys(removed_seq.to_set()),
                self.pending_by_space@ == pre.pending_by_space@.remove_keys(
                    spaces_of(pre.changes@, removed_seq),
                ),
                forall|c: u64| #[trigger]
                    removed_seq.contains(c) ==> pre.pending_ids@.take(i as int).contains(c),
            decreases len - i,
        {
            let id = self.pending_ids[i];
            proof {
                assert(pre.pending_ids@.contains(id)) by {
                    assert(pre.pending_ids@[i as int] == id);
                }
                assert(pre.changes@.contains_key(id));
                assert(!removed_seq.contains(id)) by {
                    if removed_seq.contains(id) {
                        let t = pre.pending_ids@.take(i as int);
                        assert(t.contains(id));
                        let k = choose|k: int| 0 <= k < t.len() && t[k] == id;
                        assert(pre.pending_ids@[k] == id);
                        assert(pre.pending_ids@[k] < pre.pending_ids@[i as int]);
                    }
                }
                assert(self.changes@.contains_key(id));
                assert(self.changes@[id] == pre.changes@[id]);
                // unfold the suffix once
                let suffix = pre.pending_ids@.skip(i as int);
                assert(suffix.len() > 0);
                assert(suffix[0] == id);
                assert(suffix.drop_first() =~= pre.pending_ids@.skip(i as int + 1));
            }
            let expires_at = match self.changes.get(&id) {
                Some(c) => c.expires_at,
                None => vstd::pervasive::unreached(),
            };
            if removed_count < limit && expires_at <= n {
                let sid = match self.changes.get(&id) {
                    Some(c) => c.space_id,
                    None => vstd::pervasive::unreached(),
                };
                self.changes.remove(&id);
                self.pending_by_space.remove(&sid);
                removed_count = removed_count + 1;
                proof {
                    let suffix = pre.pending_ids@.skip(i as int);
                    let b = limit - (removed_count - 1);
                    assert(swept_ids(pre.changes@, n, suffix, b) == seq![id] + swept_ids(
                        pre.changes@,
                        n,
                        suffix.drop_first(),
                        b - 1,
                    ));
                    assert(kept_ids(pre.changes@, n, suffix, b) == kept_ids(
                        pre.changes@,
                        n,
                        suffix.drop_first(),
                        b - 1,
                    ));
                    let removed_new = removed_seq.push(id);
                    assert(removed_seq + (seq![id] + swept_ids(
                        pre.changes@,
                        n,
                        pre.pending_ids@.skip(i as int + 1),
                        b - 1,
                    )) =~= removed_new + swept_ids(
                        pre.changes@,
                        n,
                        pre.pending_ids@.skip(i as int + 1),
                        b - 1,
                    ));
                    assert(removed_new.to_set() =~= removed_seq.to_set().insert(id)) by {
                        crate::owner_set::lemma_push_membership(removed_seq, id);
                    }
                    assert(self.changes@ =~= pre.changes@.remove_keys(removed_new.to_set()));
                    assert(removed_new.map_values(|c: u64| pre.changes@[c].space_id)
                        =~= removed_seq.map_values(|c: u64| pre.changes@[c].space_id).push(sid));
                    assert(spaces_of(pre.changes@, removed_new) =~= spaces_of(
                        pre.changes@,
                        removed_seq,
                    ).insert(sid)) by {
                        crate::owner_set::lemma_push_membership(
                            removed_seq.map_values(|c: u64| pre.changes@[c].space_id),
                            sid,
                        );
                    }
                    assert(self.pending_by_space@ =~= pre.pending_by_space@.remove_keys(
                        spaces_of(pre.changes@, removed_new),
                    ));
                    let removed_prev = removed_seq;
                    removed_seq = removed_new;
                    crate::owner_set::lemma_push_membership(removed_prev, id);
                    assert forall|c: u64| #[trigger]
                        removed_seq.contains(c) implies pre.pending_ids@.take(i as int + 1).contains(
                        c,
                    ) by {
                        if c != id {
                            assert(removed_prev.contains(c));
                            assert(pre.pending_ids@.take(i as int).contains(c));
                            let k = choose|k: int|
                                0 <= k < i && pre.pending_ids@.take(i as int)[k] == c;
                            assert(pre.pending_ids@.take(i as int + 1)[k] == c);
                        } else {
                            assert(pre.pending_ids@.take(i as int + 1)[i as int] == id);
                        }
                    }
                }
            } else {
                new_pending.push(id);
                proof {
                    let suffix = pre.pending_ids@.skip(i as int);
                    let b = limit - removed_count;
                    if b <= 0 {
                        assert(kept_ids(pre.changes@, n, suffix, b) == suffix);
                        assert(swept_ids(pre.changes@, n, suffix, b) == Seq::<u64>::empty());
                        assert(suffix =~= seq![id] + pre.pending_ids@.skip(i as int + 1));
                        assert(kept_ids(pre.changes@, n, suffix.drop_first(), b)
                            == suffix.drop_first());
                    } else {
                        assert(!(pre.changes@[id].expires_at <= n));
                        assert(kept_ids(pre.changes@, n, suffix, b) == seq![id] + kept_ids(
                            pre.changes@,
                            n,
                            suffix.drop_first(),
                            b,
                        ));
                        assert(swept_ids(pre.changes@, n, suffix, b) == swept_ids(
                            pre.changes@,
                            n,
                            suffix.drop_first(),
                            b,
                        ));
                    }
                    assert(new_pending@.drop_last() + (seq![id] + kept_ids(
                        pre.changes@,
                        n,
                        pre.pending_ids@.skip(i as int + 1),
                        b,
                    )) =~= new_pending@ + kept_ids(
                        pre.changes@,
                        n,
                        pre.pending_ids@.skip(i as int + 1),
                        b,
                    ));
                    assert forall|c: u64| #[trigger]
                        removed_seq.contains(c) implies pre.pending_ids@.take(i as int + 1).contains(
                        c,
                    ) by {
                        assert(pre.pending_ids@.take(i as int).contains(c));
                        let k = choose|k: int| 0 <= k < i && pre.pending_ids@.take(i as int)[k] == c;
                        assert(pre.pending_ids@.take(i as int + 1)[k] == c);
                    }
                }
            }
            i += 1;
        }
        proof {
            assert(pre.pending_ids@.skip(len as int) =~= Seq::<u64>::empty());
            assert(swept_ids(pre.changes@, n, pre.pending_ids@, budget) =~= removed_seq);
            assert(kept_ids(pre.changes@, n, pre.pending_ids@, budget) =~= new_pending@);
        }
        self.pending_ids = new_pending;
        proof {
            assert(sweep_ok(pre, *self, n));
            Self::lemma_sweep_preserves_wf(pre, *self, n);
        }
    }

    /// A bounded sweep leaves the state well formed.
    pub proof fn lemma_sweep_preserves_wf(pre: MultiOwnership, post: MultiOwnership, n: u64)
        requires
            pre.wf(),
            sweep_ok(pre, post, n),
        ensures
            post.wf(),
    {
        let budget = pre.config.max_expired_changes_per_sweep as int;
        let swept = swept_ids(pre.changes@, n, pre.pending_ids@, budget);
        lemma_sweep_properties(pre.changes@, n, pre.pending_ids@, budget);
        {
            assert(post.pending_ids@ == kept_ids(pre.changes@, n, pre.pending_ids@, budget));
            assert(forall|sid: u64| #[trigger] post.executed_ids(sid) == pre.executed_ids(sid));
            assert forall|a: u64, s: u64| #[trigger] post.owns(a, s) implies post.is_space_owner(
                a,
                s,
            ) by {
                assert(pre.owns(a, s));
            }
            assert forall|a: u64, s: u64| #[trigger] post.is_space_owner(a, s) implies post.owns(
                a,
                s,
            ) by {
                assert(pre.is_space_owner(a, s));
                assert(pre.owns(a, s));
            }
            // a swept id names its own space in the removed-spaces set
            assert forall|c: u64| #[trigger]
                swept.contains(c) implies spaces_of(pre.changes@, swept).contains(
                pre.changes@[c].space_id,
            ) by {
                let k = choose|k: int| 0 <= k < swept.len() && swept[k] == c;
                let mapped = swept.map_values(|x: u64| pre.changes@[x].space_id);
                assert(mapped[k] == pre.changes@[c].space_id);
                assert(mapped.contains(pre.changes@[c].space_id));
            }
            // a space in the removed-spaces set had its pending change swept
            assert forall|sid: u64| #[trigger]
                spaces_of(pre.changes@, swept).contains(sid) implies (
            pre.pending_by_space@.contains_key(sid) && swept.contains(
                pre.pending_by_space@[sid],
            )) by {
                let mapped = swept.map_values(|x: u64| pre.changes@[x].space_id);
                assert(mapped.contains(sid));
                let k = choose|k: int| 0 <= k < mapped.len() && mapped[k] == sid;
                let c = swept[k];
                assert(swept.contains(c));
                assert(pre.pending_ids@.contains(c));
                assert(pre.pending_by_space@[pre.changes@[c].space_id] == c);
            }
            assert forall|sid: u64| #[trigger]
                post.pending_by_space@.contains_key(sid) implies {
                let c = post.pending_by_space@[sid];
                &&& post.changes@.contains_key(c)
                &&& post.changes@[c].space_id == sid
                &&& post.pending_ids@.contains(c)
            } by {
                assert(pre.pending_by_space@.contains_key(sid));
                let c = pre.pending_by_space@[sid];
                assert(!spaces_of(pre.changes@, swept).contains(sid));
                assert(!swept.contains(c)) by {
                    if swept.contains(c) {
                        assert(spaces_of(pre.changes@, swept).contains(pre.changes@[c].space_id));
                    }
                }
                assert(post.changes@.contains_key(c));
                assert(post.changes@[c] == pre.changes@[c]);
                assert(pre.pending_ids@.contains(c));
            }
            assert forall|sid: u64| #[trigger]
                post.pending_by_space@.contains_key(sid) implies post.pending_executable(sid) by {
                assert(pre.pending_by_space@.contains_key(sid));
                assert(pre.pending_executable(sid));
                let c = pre.pending_by_space@[sid];
                assert(!swept.contains(c)) by {
                    if swept.contains(c) {
                        assert(spaces_of(pre.changes@, swept).contains(pre.changes@[c].space_id));
                    }
                }
                assert(post.changes@[c] == pre.changes@[c]);
                assert(post.executed_ids(sid) == pre.executed_ids(sid));
            }
            assert forall|k: int|
                0 <= k < post.pending_ids@.len() implies {
                let c = #[trigger] post.pending_ids@[k];
                &&& post.changes@.contains_key(c)
                &&& post.pending_by_space@.contains_key(post.changes@[c].space_id)
                &&& post.pending_by_space@[post.changes@[c].space_id] == c
            } by {
                let c = post.pending_ids@[k];
                assert(post.pending_ids@.contains(c));
                assert(pre.pending_ids@.contains(c) && !swept.contains(c));
                assert(pre.changes@.contains_key(c));
                assert(pre.pending_by_space@.contains_key(pre.changes@[c].space_id));
                assert(pre.pending_by_space@[pre.changes@[c].space_id] == c);
                assert(post.changes@.contains_key(c));
                assert(post.changes@[c] == pre.changes@[c]);
                assert(!spaces_of(pre.changes@, swept).contains(pre.changes@[c].space_id)) by {
                    if spaces_of(pre.changes@, swept).contains(pre.changes@[c].space_id) {
                        assert(swept.contains(
                            pre.pending_by_space@[pre.changes@[c].space_id],
                        ));
                    }
                }
            }
            assert forall|c: u64| #[trigger]
                post.changes@.contains_key(c) implies {
                let chc = post.changes@[c];
                &&& chc.wf(post.config)
                &&& chc.id == c
                &&& 1 <= c < post.next_id
                &&& post.spaces@.contains_key(chc.space_id)
            } by {
                assert(pre.changes@.contains_key(c));
                assert(post.changes@[c] == pre.changes@[c]);
            }
            assert forall|sid: u64| #[trigger]
                post.spaces@.contains_key(sid) implies post.spaces@[sid].changes_count
                == post.executed_ids(sid).len() by {
                assert(post.executed_ids(sid) == pre.executed_ids(sid));
            }
            assert forall|sid: u64| strictly_increasing(#[trigger] post.executed_ids(sid)) by {
                assert(post.executed_ids(sid) == pre.executed_ids(sid));
                assert(strictly_increasing(pre.executed_ids(sid)));
            }
            assert forall|sid: u64, j: int|
                0 <= j < post.executed_ids(sid).len() implies {
                let c = #[trigger] post.executed_ids(sid)[j];
                &&& post.changes@.contains_key(c)
                &&& post.changes@[c].space_id == sid
            } by {
                assert(post.executed_ids(sid) == pre.executed_ids(sid));
                let c = pre.executed_ids(sid)[j];
                assert(pre.changes@.contains_key(c) && pre.changes@[c].space_id == sid);
                assert(!swept.contains(c)) by {
                    if swept.contains(c) {
                        assert(pre.pending_ids@.contains(c));
                        assert(pre.executed_ids(pre.changes@[c].space_id).contains(c));
                    }
                }
                assert(post.changes@[c] == pre.changes@[c]);
            }
            assert forall|c: u64| #[trigger]
                post.changes@.contains_key(c) implies (post.pending_ids@.contains(c)
                <==> !post.executed_ids(post.changes@[c].space_id).contains(c)) by {
                assert(pre.changes@.contains_key(c) && !swept.contains(c));
                assert(post.changes@[c] == pre.changes@[c]);
                assert(post.executed_ids(post.changes@[c].space_id) == pre.executed_ids(
                    pre.changes@[c].space_id,
                ));
                assert(post.pending_ids@.contains(c) <==> (pre.pending_ids@.contains(c)
                    && !swept.contains(c)));
            }
        }
    }

    /// The periodic hook of the enclosing block clock: on every height
    /// divisible by the configured period it runs one bounded expiry sweep;
    /// on any other height it does nothing.
    pub fn on_finalize(&mut self, n: u64)
        requires
            old(self).wf(),
        ensures
            final(self).wf(),
            n % old(self).config.delete_expired_changes_period == 0 ==> sweep_ok(
                *old(self),
                *final(self),
                n,
            ),
            n % old(self).config.delete_expired_changes_period != 0 ==> *final(self) == *old(self),
    {
        if n % self.config.delete_expired_changes_period == 0 {
            self.delete_expired_changes(n);
        }
    }
}

} // verus!
