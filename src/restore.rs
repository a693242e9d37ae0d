use vstd::prelude::*;

use crate::ids::IdAllocator;
use crate::models::{Match, MatchView, Team, TeamView, User};
use crate::rosters::{ascending_below, lemma_wf_parts, roster, rosters_sound};
use crate::store::{ids_contain, Store, StoreView};

verus! {

/// Whether `ids` rises strictly and stays below `bound`.
pub fn check_ascending_below(ids: &Vec<u64>, bound: u64) -> (r: bool)
    ensures
        r == ascending_below(ids@, bound),
{
    let mut i: usize = 0;
    while i < ids.len()
        invariant
            i <= ids.len(),
            ascending_below(ids@.subrange(0, i as int), bound),
        decreases ids.len() - i,
    {
        if ids[i] >= bound {
            assert(!ascending_below(ids@, bound)) by {
                assert(ids@[i as int] >= bound);
            }
            return false;
        }
        if i > 0 && ids[i - 1] >= ids[i] {
            assert(!ascending_below(ids@, bound)) by {
                assert(ids@[i - 1] >= ids@[i as int]);
            }
            return false;
        }
        proof {
            let s = ids@.subrange(0, i + 1);
            let p = ids@.subrange(0, i as int);
            assert forall|a: int, b: int| 0 <= a < b < s.len() implies #[trigger] s[a] < #[trigger] s[b] by {
                if b < i {
                    assert(p[a] < p[b]);
                } else if a < i - 1 {
                    assert(p[a] < p[i - 1]);
                }
            }
            assert forall|a: int| 0 <= a < s.len() implies #[trigger] s[a] < bound by {
                if a < i {
                    assert(p[a] < bound);
                }
            }
        }
        i = i + 1;
    }
    assert(ids@.subrange(0, ids.len() as int) =~= ids@);
    true
}

/// Whether no two users share an email.
fn check_emails_distinct(users: &Vec<User>) -> (r: bool)
    ensures
        r == forall|i: int, j: int|
            #![trigger users@[i], users@[j]]
            0 <= i < users@.len() && 0 <= j < users@.len() && i != j ==> users@[i].email@ != users@[j].email@,
{
    let mut i: usize = 0;
    while i < users.len()
        invariant
            i <= users.len(),
            forall|a: int, b: int|
                #![trigger users@[a], users@[b]]
                0 <= a < i && 0 <= b < users@.len() && a != b ==> users@[a].email@ != users@[b].email@,
        decreases users.len() - i,
    {
        let mut j: usize = 0;
        while j < users.len()
            invariant
                i < users.len(),
                j <= users.len(),
                forall|a: int, b: int|
                    #![trigger users@[a], users@[b]]
                    0 <= a < i && 0 <= b < users@.len() && a != b ==> users@[a].email@ != users@[b].email@,
                forall|b: int| 0 <= b < j && b != i ==> users@[i as int].email@ != (#[trigger] users@[b]).email@,
            decreases users.len() - j,
        {
            if j != i && users[i].email == users[j].email {
                return false;
            }
            j = j + 1;
        }
        proof {
            assert forall|a: int, b: int|
                #![trigger users@[a], users@[b]]
                0 <= a < i + 1 && 0 <= b < users@.len() && a != b implies users@[a].email@
                    != users@[b].email@ by {
                if a == i {
                    assert(users@[i as int].email@ != users@[b].email@);
                }
            }
        }
        i = i + 1;
    }
    true
}

/// Whether some user in `users` has identifier `id`.
fn check_user_exists(users: &Vec<User>, id: u64) -> (r: bool)
    ensures
        r == exists|k: int| 0 <= k < users@.len() && (#[trigger] users@[k]).id == id,
{
    let mut k: usize = 0;
    while k < users.len()
        invariant
            k <= users.len(),
            forall|a: int| 0 <= a < k ==> (#[trigger] users@[a]).id != id,
        decreases users.len() - k,
    {
        if users[k].id == id {
            assert(users@[k as int].id == id);
            return true;
        }
        k = k + 1;
    }
    false
}

fn roster_of(t: &Team, coaches: bool) -> (r: &Vec<u64>)
    ensures
        r@ == roster(t@, coaches),
{
    if coaches {
        &t.coaches
    } else {
        &t.members
    }
}

/// Whether id `m`, found in the roster of team `i`, is in no other team's
/// roster.
fn check_only_team(teams: &Vec<Team>, i: usize, m: u64, coaches: bool) -> (r: bool)
    requires
        i < teams.len(),
    ensures
        r == forall|j: int|
            0 <= j < teams@.len() && j != i ==> !(#[trigger] roster(teams@[j]@, coaches)).contains(m),
{
    let mut j: usize = 0;
    while j < teams.len()
        invariant
            j <= teams.len(),
            forall|b: int| 0 <= b < j && b != i ==> !(#[trigger] roster(teams@[b]@, coaches)).contains(m),
        decreases teams.len() - j,
    {
        if j != i && ids_contain(roster_of(&teams[j], coaches), m) {
            return false;
        }
        j = j + 1;
    }
    true
}

/// Whether the rosters of one kind obey `rosters_sound`.
fn check_rosters(teams: &Vec<Team>, users: &Vec<User>, coaches: bool) -> (r: bool)
    ensures
        r == rosters_sound(teams@.map_values(|t: Team| t@), users@, coaches),
{
    let ghost tv = teams@.map_values(|t: Team| t@);
    let mut i: usize = 0;
    while i < teams.len()
        invariant
            i <= teams.len(),
            tv == teams@.map_values(|t: Team| t@),
            rosters_sound(tv.subrange(0, i as int), users@, coaches),
            forall|a: int, j: int, m: u64|
                0 <= a < i && 0 <= j < tv.len() && a != j && #[trigger] roster(tv[a], coaches).contains(m)
                    ==> !(#[trigger] roster(tv[j], coaches).contains(m)),
        decreases teams.len() - i,
    {
        let list = roster_of(&teams[i], coaches);
        assert(list@ == roster(tv[i as int], coaches));
        let mut p: usize = 0;
        while p < list.len()
            invariant
                i < teams.len(),
                p <= list.len(),
                tv == teams@.map_values(|t: Team| t@),
                list@ == roster(tv[i as int], coaches),
                rosters_sound(tv.subrange(0, i as int), users@, coaches),
                forall|a: int, j: int, m: u64|
                    0 <= a < i && 0 <= j < tv.len() && a != j && #[trigger] roster(tv[a], coaches).contains(m)
                        ==> !(#[trigger] roster(tv[j], coaches).contains(m)),
                forall|a: int, b: int| 0 <= a < b < p ==> list@[a] != list@[b],
                forall|a: int, j: int|
                    0 <= a < p && 0 <= j < tv.len() && j != i ==> !(#[trigger] roster(tv[j], coaches)).contains(
                        #[trigger] list@[a],
                    ),
                forall|a: int|
                    0 <= a < p ==> exists|k: int| 0 <= k < users@.len() && (#[trigger] users@[k]).id == #[trigger] list@[a],
            decreases list.len() - p,
        {
            let m = list[p];
            let mut q: usize = 0;
            while q < p
                invariant
                    i < teams.len(),
                    tv == teams@.map_values(|t: Team| t@),
                    list@ == roster(tv[i as int], coaches),
                    p < list.len(),
                    q <= p,
                    m == list@[p as int],
                    forall|a: int| 0 <= a < q ==> list@[a] != m,
                decreases p - q,
            {
                if list[q] == m {
                    assert(!rosters_sound(tv, users@, coaches)) by {
                        assert(list@[q as int] == list@[p as int]);
                        assert(!list@.no_duplicates());
                    }
                    return false;
                }
                q = q + 1;
            }
            if !check_only_team(teams, i, m, coaches) {
                assert(!rosters_sound(tv, users@, coaches)) by {
                    let j = choose|j: int|
                        0 <= j < teams@.len() && j != i && (#[trigger] roster(teams@[j]@, coaches)).contains(m);
                    assert(tv[j] == teams@[j]@);
                    assert(roster(tv[i as int], coaches).contains(m)) by {
                        assert(list@[p as int] == m);
                    }
                }
                return false;
            }
            if !check_user_exists(users, m) {
                assert(!rosters_sound(tv, users@, coaches)) by {
                    assert(roster(tv[i as int], coaches).contains(m)) by {
                        assert(list@[p as int] == m);
                    }
                }
                return false;
            }
            proof {
                assert forall|j: int| 0 <= j < tv.len() && j != i implies !(#[trigger] roster(tv[j], coaches)).contains(m) by {
                    assert(tv[j] == teams@[j]@);
                }
            }
            p = p + 1;
        }
        proof {
            let s = tv.subrange(0, i + 1);
            assert(list@.no_duplicates());
            assert forall|a: int, j: int, m: u64|
                0 <= a < i + 1 && 0 <= j < tv.len() && a != j && #[trigger] roster(tv[a], coaches).contains(m)
                    implies !(#[trigger] roster(tv[j], coaches).contains(m)) by {
                if a == i {
                    let k = choose|k: int| 0 <= k < list@.len() && list@[k] == m;
                    assert(!roster(tv[j], coaches).contains(list@[k]));
                }
            }
            assert forall|a: int, m: u64| 0 <= a < s.len() && #[trigger] roster(s[a], coaches).contains(m)
                implies exists|k: int| 0 <= k < users@.len() && (#[trigger] users@[k]).id == m by {
                if a == i {
                    let k = choose|k: int| 0 <= k < list@.len() && list@[k] == m;
                    assert(exists|u: int| 0 <= u < users@.len() && (#[trigger] users@[u]).id == list@[k]);
                } else {
                    assert(s[a] == tv.subrange(0, i as int)[a]);
                }
            }
            assert forall|a: int| 0 <= a < s.len() implies roster(#[trigger] s[a], coaches).no_duplicates() by {
                if a < i {
                    assert(s[a] == tv.subrange(0, i as int)[a]);
                }
            }
            assert forall|a: int, b: int, m: u64|
                0 <= a < s.len() && 0 <= b < s.len() && a != b && #[trigger] roster(s[a], coaches).contains(m)
                    implies !(#[trigger] roster(s[b], coaches).contains(m)) by {
                assert(s[a] == tv[a]);
                assert(s[b] == tv[b]);
            }
        }
        i = i + 1;
    }
    assert(tv.subrange(0, teams.len() as int) =~= tv);
    true
}

} // verus!

verus! {

/// The view of a store made of these parts.
pub open spec fn view_of(next: u64, users: Seq<User>, teams: Seq<Team>, matches: Seq<Match>) -> StoreView {
    StoreView {
        next_id: next,
        users,
        teams: teams.map_values(|t: Team| t@),
        matches: matches.map_values(|m: Match| m@),
    }
}

} // verus!

verus! {

fn user_ids(users: &Vec<User>) -> (r: Vec<u64>)
    ensures
        r@ == users@.map_values(|u: User| u.id),
{
    let mut r: Vec<u64> = Vec::new();
    let mut i: usize = 0;
    while i < users.len()
        invariant
            i <= users.len(),
            r.len() == i,
            forall|k: int| 0 <= k < i ==> r@[k] == (#[trigger] users@[k]).id,
        decreases users.len() - i,
    {
        r.push(users[i].id);
        i = i + 1;
    }
    assert(r@ =~= users@.map_values(|u: User| u.id));
    r
}

fn team_ids(teams: &Vec<Team>) -> (r: Vec<u64>)
    ensures
        r@ == teams@.map_values(|t: Team| t@).map_values(|t: TeamView| t.id),
{
    let mut r: Vec<u64> = Vec::new();
    let mut i: usize = 0;
    while i < teams.len()
        invariant
            i <= teams.len(),
            r.len() == i,
            forall|k: int| 0 <= k < i ==> r@[k] == (#[trigger] teams@[k]).id,
        decreases teams.len() - i,
    {
        r.push(teams[i].id);
        i = i + 1;
    }
    assert(r@ =~= teams@.map_values(|t: Team| t@).map_values(|t: TeamView| t.id));
    r
}

fn match_ids(matches: &Vec<Match>) -> (r: Vec<u64>)
    ensures
        r@ == matches@.map_values(|m: Match| m@).map_values(|m: MatchView| m.id),
{
    let mut r: Vec<u64> = Vec::new();
    let mut i: usize = 0;
    while i < matches.len()
        invariant
            i <= matches.len(),
            r.len() == i,
            forall|k: int| 0 <= k < i ==> r@[k] == (#[trigger] matches@[k]).id,
        decreases matches.len() - i,
    {
        r.push(matches[i].id);
        i = i + 1;
    }
    assert(r@ =~= matches@.map_values(|m: Match| m@).map_values(|m: MatchView| m.id));
    r
}

/// Whether no match has the same home and away team.
fn check_distinct_sides(matches: &Vec<Match>) -> (r: bool)
    ensures
        r == forall|i: int|
            0 <= i < matches@.len() ==> (#[trigger] matches@[i]).home_team.id != matches@[i].away_team.id,
{
    let mut i: usize = 0;
    while i < matches.len()
        invariant
            i <= matches.len(),
            forall|k: int| 0 <= k < i ==> (#[trigger] matches@[k]).home_team.id != matches@[k].away_team.id,
        decreases matches.len() - i,
    {
        if matches[i].home_team.id == matches[i].away_team.id {
            return false;
        }
        i = i + 1;
    }
    true
}

impl Store {
    /// Rebuilds a store from saved parts: `next` is the saved counter. Gives
    /// `None` when the parts break the store's invariant.
    pub fn restore(next: u64, users: Vec<User>, teams: Vec<Team>, matches: Vec<Match>) -> (r: Option<Store>)
        ensures
            r is Some <==> view_of(next, users@, teams@, matches@).wf(),
            r matches Some(st) ==> st.wf() && st@ == view_of(next, users@, teams@, matches@),
    {
        let ghost v = view_of(next, users@, teams@, matches@);
        proof {
            lemma_wf_parts(v);
            assert forall|i: int| 0 <= i < v.matches.len() implies v.matches[i] == (#[trigger] matches@[i])@ by {}
        }
        let ok = check_ascending_below(&user_ids(&users), next)
            && check_ascending_below(&team_ids(&teams), next)
            && check_ascending_below(&match_ids(&matches), next)
            && check_emails_distinct(&users)
            && check_rosters(&teams, &users, false)
            && check_rosters(&teams, &users, true)
            && check_distinct_sides(&matches);
        if !ok {
            return None;
        }
        let st = Store { ids: IdAllocator::resume(next), users, teams, matches };
        assert(st@ =~= v);
        Some(st)
    }
}

} // verus!
