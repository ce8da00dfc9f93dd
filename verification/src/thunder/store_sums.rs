//! Sums over the users of a table.

use vstd::prelude::*;

use crate::thunder::store_model::sum_over;

verus! {

/// One user more adds that user's share.
pub proof fn lemma_sum_insert(users: Set<i64>, user: i64, f: spec_fn(i64) -> nat)
    requires
        users.finite(),
        !users.contains(user),
    ensures
        sum_over(users.insert(user), f) == sum_over(users, f) + f(user),
    decreases users.len(),
{
    let all = users.insert(user);
    let chosen = all.choose();
    assert(all.contains(user));
    if chosen == user {
        assert(all.remove(user) =~= users);
    } else {
        let rest = users.remove(chosen);
        assert(users.contains(chosen));
        lemma_sum_insert(rest, user, f);
        lemma_sum_insert(rest, chosen, f);
        assert(rest.insert(chosen) =~= users);
        assert(all.remove(chosen) =~= rest.insert(user));
    }
}

} // verus!
