use vstd::prelude::*;

use crate::models::{MatchView, TeamView, User};
use crate::store::StoreView;

verus! {

/// `ids` rises strictly and stays below `bound`.
pub open spec fn ascending_below(ids: Seq<u64>, bound: u64) -> bool {
    &&& forall|i: int| 0 <= i < ids.len() ==> #[trigger] ids[i] < bound
    &&& forall|i: int, j: int| 0 <= i < j < ids.len() ==> #[trigger] ids[i] < #[trigger] ids[j]
}

/// The identifiers in the member list (`coaches` false) or the coach list
/// (`coaches` true) of a team view.
pub open spec fn roster(t: TeamView, coaches: bool) -> Seq<u64> {
    if coaches {
        t.coaches
    } else {
        t.members
    }
}

/// The rules that one kind of roster obeys across all teams: no id twice in
/// a roster, no id in two teams' rosters, every id naming a user.
pub open spec fn rosters_sound(teams: Seq<TeamView>, users: Seq<User>, coaches: bool) -> bool {
    &&& forall|i: int| 0 <= i < teams.len() ==> roster(#[trigger] teams[i], coaches).no_duplicates()
    &&& forall|i: int, j: int, m: u64|
        0 <= i < teams.len() && 0 <= j < teams.len() && i != j && #[trigger] roster(teams[i], coaches).contains(m)
            ==> !(#[trigger] roster(teams[j], coaches).contains(m))
    &&& forall|i: int, m: u64|
        0 <= i < teams.len() && #[trigger] roster(teams[i], coaches).contains(m) ==> exists|k: int|
            0 <= k < users.len() && (#[trigger] users[k]).id == m
}

/// The invariant of a store, taken apart into the pieces that `restore`
/// tests one by one.
pub(crate) proof fn lemma_wf_parts(v: StoreView)
    ensures
        v.wf() <==> {
            &&& ascending_below(v.users.map_values(|u: User| u.id), v.next_id)
            &&& ascending_below(v.teams.map_values(|t: TeamView| t.id), v.next_id)
            &&& ascending_below(v.matches.map_values(|m: MatchView| m.id), v.next_id)
            &&& forall|i: int, j: int|
                #![trigger v.users[i], v.users[j]]
                0 <= i < v.users.len() && 0 <= j < v.users.len() && i != j ==> v.users[i].email@
                    != v.users[j].email@
            &&& rosters_sound(v.teams, v.users, false)
            &&& rosters_sound(v.teams, v.users, true)
            &&& forall|i: int|
                0 <= i < v.matches.len() ==> (#[trigger] v.matches[i]).home_team.id != v.matches[i].away_team.id
        },
{
    let ui = v.users.map_values(|u: User| u.id);
    let ti = v.teams.map_values(|t: TeamView| t.id);
    let mi = v.matches.map_values(|m: MatchView| m.id);
    assert forall|i: int| 0 <= i < v.teams.len() implies #[trigger] roster(v.teams[i], false) == v.teams[i].members
        && roster(v.teams[i], true) == v.teams[i].coaches by {}
    if v.wf() {
        assert forall|i: int, j: int| 0 <= i < j < ui.len() implies #[trigger] ui[i] < #[trigger] ui[j] by {
            assert(v.users[i].id < v.users[j].id);
        }
        assert forall|i: int, j: int| 0 <= i < j < ti.len() implies #[trigger] ti[i] < #[trigger] ti[j] by {
            assert(v.teams[i].id < v.teams[j].id);
        }
        assert forall|i: int, j: int| 0 <= i < j < mi.len() implies #[trigger] mi[i] < #[trigger] mi[j] by {
            assert(v.matches[i].id < v.matches[j].id);
        }
        assert forall|i: int| 0 <= i < ui.len() implies #[trigger] ui[i] < v.next_id by {
            assert(v.users[i].id < v.next_id);
        }
        assert forall|i: int| 0 <= i < ti.len() implies #[trigger] ti[i] < v.next_id by {
            assert(v.teams[i].id < v.next_id);
        }
        assert forall|i: int| 0 <= i < mi.len() implies #[trigger] mi[i] < v.next_id by {
            assert(v.matches[i].id < v.next_id);
        }
        assert forall|i: int, m: u64| 0 <= i < v.teams.len() && #[trigger] roster(v.teams[i], false).contains(m)
            implies exists|k: int| 0 <= k < v.users.len() && (#[trigger] v.users[k]).id == m by {
            assert(v.teams[i].members.contains(m));
            assert(v.has_user(m));
        }
        assert forall|i: int, m: u64| 0 <= i < v.teams.len() && #[trigger] roster(v.teams[i], true).contains(m)
            implies exists|k: int| 0 <= k < v.users.len() && (#[trigger] v.users[k]).id == m by {
            assert(v.teams[i].coaches.contains(m));
            assert(v.has_user(m));
        }
        assert forall|i: int, j: int, m: u64|
            0 <= i < v.teams.len() && 0 <= j < v.teams.len() && i != j && #[trigger] roster(v.teams[i], false).contains(m)
                implies !(#[trigger] roster(v.teams[j], false).contains(m)) by {
            assert(v.teams[i].members.contains(m));
        }
        assert forall|i: int, j: int, m: u64|
            0 <= i < v.teams.len() && 0 <= j < v.teams.len() && i != j && #[trigger] roster(v.teams[i], true).contains(m)
                implies !(#[trigger] roster(v.teams[j], true).contains(m)) by {
            assert(v.teams[i].coaches.contains(m));
        }
    }
    if ascending_below(ui, v.next_id) && ascending_below(ti, v.next_id) && ascending_below(mi, v.next_id)
        && rosters_sound(v.teams, v.users, false) && rosters_sound(v.teams, v.users, true) {
        assert forall|i: int, j: int|
            #![trigger v.users[i], v.users[j]]
            0 <= i < j < v.users.len() implies v.users[i].id < v.users[j].id by {
            assert(ui[i] < ui[j]);
        }
        assert forall|i: int, j: int|
            #![trigger v.teams[i], v.teams[j]]
            0 <= i < j < v.teams.len() implies v.teams[i].id < v.teams[j].id by {
            assert(ti[i] < ti[j]);
        }
        assert forall|i: int, j: int|
            #![trigger v.matches[i], v.matches[j]]
            0 <= i < j < v.matches.len() implies v.matches[i].id < v.matches[j].id by {
            assert(mi[i] < mi[j]);
        }
        assert forall|i: int| 0 <= i < v.users.len() implies (#[trigger] v.users[i]).id < v.next_id by {
            assert(ui[i] < v.next_id);
        }
        assert forall|i: int| 0 <= i < v.teams.len() implies (#[trigger] v.teams[i]).id < v.next_id by {
            assert(ti[i] < v.next_id);
        }
        assert forall|i: int| 0 <= i < v.matches.len() implies (#[trigger] v.matches[i]).id < v.next_id by {
            assert(mi[i] < v.next_id);
        }
        assert forall|i: int, m: u64| 0 <= i < v.teams.len() && #[trigger] v.teams[i].members.contains(m)
            implies v.has_user(m) by {
            assert(roster(v.teams[i], false).contains(m));
        }
        assert forall|i: int, m: u64| 0 <= i < v.teams.len() && #[trigger] v.teams[i].coaches.contains(m)
            implies v.has_user(m) by {
            assert(roster(v.teams[i], true).contains(m));
        }
        assert forall|i: int, j: int, m: u64|
            0 <= i < v.teams.len() && 0 <= j < v.teams.len() && i != j && #[trigger] v.teams[i].members.contains(m)
                implies !(#[trigger] v.teams[j].members.contains(m)) by {
            assert(roster(v.teams[i], false).contains(m));
            assert(roster(v.teams[j], false) == v.teams[j].members);
        }
        assert forall|i: int, j: int, m: u64|
            0 <= i < v.teams.len() && 0 <= j < v.teams.len() && i != j && #[trigger] v.teams[i].coaches.contains(m)
                implies !(#[trigger] v.teams[j].coaches.contains(m)) by {
            assert(roster(v.teams[i], true).contains(m));
            assert(roster(v.teams[j], true) == v.teams[j].coaches);
        }
        assert forall|i: int| 0 <= i < v.teams.len() implies (#[trigger] v.teams[i]).members.no_duplicates()
            && v.teams[i].coaches.no_duplicates() by {
            assert(roster(v.teams[i], false).no_duplicates());
            assert(roster(v.teams[i], true).no_duplicates());
        }
    }
}

/// Appending `x` to one kind of roster of the team at `pos` keeps the store's
/// invariant when `x` names a user and is in no roster of that kind, and
/// nothing else changes.
pub proof fn lemma_roster_push(before: StoreView, after: StoreView, pos: int, x: u64, coaches: bool)
    requires
        before.wf(),
        0 <= pos < before.teams.len(),
        before.has_user(x),
        forall|i: int| 0 <= i < before.teams.len() ==> !(#[trigger] roster(before.teams[i], coaches)).contains(x),
        after.next_id == before.next_id,
        after.users == before.users,
        after.matches == before.matches,
        after.teams.len() == before.teams.len(),
        forall|i: int| 0 <= i < before.teams.len() && i != pos ==> after.teams[i] == before.teams[i],
        after.teams[pos].id == before.teams[pos].id,
        roster(after.teams[pos], coaches) == roster(before.teams[pos], coaches).push(x),
        roster(after.teams[pos], !coaches) == roster(before.teams[pos], !coaches),
    ensures
        after.wf(),
{
    let other = !coaches;
    lemma_wf_parts(before);
    lemma_wf_parts(after);
    let b = before.teams;
    let a = after.teams;
    let old_list = roster(b[pos], coaches);
    let new_list = roster(a[pos], coaches);
    assert(after.teams.map_values(|t: TeamView| t.id) =~= before.teams.map_values(|t: TeamView| t.id));
    assert forall|i: int| 0 <= i < a.len() implies roster(#[trigger] a[i], other) == roster(b[i], other) by {}
    assert(rosters_sound(a, after.users, other)) by {
        assert forall|i: int, j: int, m: u64|
            0 <= i < a.len() && 0 <= j < a.len() && i != j && #[trigger] roster(a[i], other).contains(m)
                implies !(#[trigger] roster(a[j], other).contains(m)) by {
            assert(roster(b[i], other).contains(m));
        }
        assert forall|i: int, m: u64| 0 <= i < a.len() && #[trigger] roster(a[i], other).contains(m)
            implies exists|k: int| 0 <= k < after.users.len() && (#[trigger] after.users[k]).id == m by {
            assert(roster(b[i], other).contains(m));
        }
        assert forall|i: int| 0 <= i < a.len() implies roster(#[trigger] a[i], other).no_duplicates() by {
            assert(roster(b[i], other).no_duplicates());
        }
    }
    assert forall|m: u64| #[trigger] new_list.contains(m) && m != x implies old_list.contains(m) by {
        let k = choose|k: int| 0 <= k < new_list.len() && new_list[k] == m;
        assert(old_list[k] == m);
    }
    assert(rosters_sound(a, after.users, coaches)) by {
        assert forall|i: int, j: int, m: u64|
            0 <= i < a.len() && 0 <= j < a.len() && i != j && #[trigger] roster(a[i], coaches).contains(m)
                implies !(#[trigger] roster(a[j], coaches).contains(m)) by {
            if i == pos {
                if m == x {
                    assert(!roster(b[j], coaches).contains(x));
                } else {
                    assert(old_list.contains(m));
                }
            } else if j == pos {
                assert(roster(b[i], coaches).contains(m));
                assert(m != x);
                if new_list.contains(m) {
                    assert(old_list.contains(m));
                }
            }
        }
        assert forall|i: int, m: u64| 0 <= i < a.len() && #[trigger] roster(a[i], coaches).contains(m)
            implies exists|k: int| 0 <= k < after.users.len() && (#[trigger] after.users[k]).id == m by {
            if i == pos && m != x {
                assert(old_list.contains(m));
                assert(roster(b[pos], coaches).contains(m));
            } else if i != pos {
                assert(roster(b[i], coaches).contains(m));
            } else {
                assert(before.has_user(x));
            }
        }
        assert forall|i: int| 0 <= i < a.len() implies roster(#[trigger] a[i], coaches).no_duplicates() by {
            if i == pos {
                assert(!old_list.contains(x));
                assert(old_list.no_duplicates());
            } else {
                assert(roster(b[i], coaches).no_duplicates());
            }
        }
    }
}

} // verus!
