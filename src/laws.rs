use vstd::prelude::*;

use crate::models::{MatchResult, RegisterUserPayload};
use crate::store::{email_in, registered_user, registration_complete, StoreView};
use crate::text::valid_email;

verus! {

/// Once a registration has succeeded, its email is in use in the resulting
/// store, so a second registration with the same email fails with a
/// conflict, whatever its other fields are.
pub proof fn lemma_email_registered_once(
    s: StoreView,
    p: RegisterUserPayload,
    owner: String,
    q: RegisterUserPayload,
)
    requires
        s.wf(),
        registration_complete(p),
        valid_email(p.email@),
        !email_in(s.users, p.email@),
        q.email@ == p.email@,
    ensures
        email_in(s.with_user(registered_user(s.next_id, p, owner)).users, q.email@),
{
    let t = s.with_user(registered_user(s.next_id, p, owner));
    assert(t.users[s.users.len() as int].email@ == q.email@);
}

/// No player is a member of two different teams.
pub proof fn lemma_member_of_one_team(s: StoreView, i: int, j: int, m: u64)
    requires
        s.wf(),
        0 <= i < s.teams.len(),
        0 <= j < s.teams.len(),
        s.teams[i].members.contains(m),
        s.teams[j].members.contains(m),
    ensures
        i == j,
{
}

/// No coach coaches two different teams.
pub proof fn lemma_coach_of_one_team(s: StoreView, i: int, j: int, c: u64)
    requires
        s.wf(),
        0 <= i < s.teams.len(),
        0 <= j < s.teams.len(),
        s.teams[i].coaches.contains(c),
        s.teams[j].coaches.contains(c),
    ensures
        i == j,
{
}

/// The member and coach lists of every team hold no identifier twice.
pub proof fn lemma_team_lists_distinct(s: StoreView, i: int)
    requires
        s.wf(),
        0 <= i < s.teams.len(),
    ensures
        s.teams[i].members.no_duplicates(),
        s.teams[i].coaches.no_duplicates(),
{
}

/// After a result has been recorded for a match, the match still exists and
/// carries a result, so a second submission for it fails and the recorded
/// result is never replaced.
pub proof fn lemma_result_written_once(s: StoreView, id: u64, res: MatchResult)
    requires
        s.wf(),
        s.has_match(id),
        s.matches[s.match_index(id)].result is None,
    ensures
        ({
            let t = s.with_match_at(s.match_index(id), s.matches[s.match_index(id)].with_result(res));
            t.has_match(id) && t.matches[t.match_index(id)].result == Some(res)
        }),
{
    let i = s.match_index(id);
    let t = s.with_match_at(i, s.matches[i].with_result(res));
    assert(t.matches[i].id == id);
    assert(t.has_match(id));
    let j = t.match_index(id);
    assert(t.matches[j].id == id);
    if j != i {
        assert(s.matches[j].id == id);
        if j < i {
            assert(s.matches[j].id < s.matches[i].id);
        } else {
            assert(s.matches[i].id < s.matches[j].id);
        }
    }
}

} // verus!

verus! {

/// A player who is a member of some team names an existing user and is in a
/// team, so adding them to any existing team fails with a conflict rather
/// than a missing record.
pub proof fn lemma_member_elsewhere_conflicts(s: StoreView, a: int, x: u64)
    requires
        s.wf(),
        0 <= a < s.teams.len(),
        s.teams[a].members.contains(x),
    ensures
        s.has_user(x),
        s.in_some_team(x),
{
}

/// A coach who coaches some team names an existing user and coaches a team,
/// so assigning them to any existing team fails with a conflict.
pub proof fn lemma_coach_elsewhere_conflicts(s: StoreView, a: int, x: u64)
    requires
        s.wf(),
        0 <= a < s.teams.len(),
        s.teams[a].coaches.contains(x),
    ensures
        s.has_user(x),
        s.coaches_some_team(x),
{
}

} // verus!
