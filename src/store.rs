use vstd::prelude::*;

use crate::error::{conflict, error_text, invalid, is_conflict, is_invalid, is_not_found, not_found, Error};
use crate::ids::{generate_uuid, IdAllocator};
use crate::models::{
    has_role, AddMemberPayload, AssignCoachPayload, CreateTeamPayload, Match, MatchResultPayload,
    MatchView, RegisterUserPayload, ScheduleMatchPayload, SportType, Team, TeamView, UpdateUserPayload, User,
    UserRole,
};
use crate::rosters::{lemma_roster_push, roster};
use crate::text::{decimal, decimal_of, join2, join3, lower_of, lowercase, valid_email, validate_email_format};

verus! {

/// The league's records: users, teams and matches, each kept in ascending
/// order of identifier, and the allocator that all three draw identifiers
/// from.
pub struct Store {
    pub ids: IdAllocator,
    pub users: Vec<User>,
    pub teams: Vec<Team>,
    pub matches: Vec<Match>,
}

pub ghost struct StoreView {
    pub next_id: u64,
    pub users: Seq<User>,
    pub teams: Seq<TeamView>,
    pub matches: Seq<MatchView>,
}

impl View for Store {
    type V = StoreView;

    open spec fn view(&self) -> StoreView {
        StoreView {
            next_id: self.ids.next,
            users: self.users@,
            teams: self.teams@.map_values(|t: Team| t@),
            matches: self.matches@.map_values(|m: Match| m@),
        }
    }
}

/// The user that a registration creates.
pub open spec fn registered_user(id: u64, p: RegisterUserPayload, owner: String) -> User {
    User { id, owner, name: p.name, email: p.email, address: p.address, role: p.role }
}

/// The user that an update writes.
pub open spec fn updated_user(p: UpdateUserPayload, owner: String) -> User {
    User { id: p.id, owner, name: p.name, email: p.email, address: p.address, role: p.role }
}

/// Name, email and address are all given.
pub open spec fn registration_complete(p: RegisterUserPayload) -> bool {
    p.name@.len() > 0 && p.email@.len() > 0 && p.address@.len() > 0
}

pub open spec fn email_in(users: Seq<User>, email: Seq<char>) -> bool {
    exists|i: int| 0 <= i < users.len() && (#[trigger] users[i]).email@ == email
}

impl TeamView {
    pub open spec fn with_member(self, m: u64) -> TeamView {
        TeamView { members: self.members.push(m), ..self }
    }

    pub open spec fn with_coach(self, c: u64) -> TeamView {
        TeamView { coaches: self.coaches.push(c), ..self }
    }
}

impl StoreView {
    pub open spec fn wf(self) -> bool {
        &&& forall|i: int| 0 <= i < self.users.len() ==> (#[trigger] self.users[i]).id < self.next_id
        &&& forall|i: int| 0 <= i < self.teams.len() ==> (#[trigger] self.teams[i]).id < self.next_id
        &&& forall|i: int|
            0 <= i < self.matches.len() ==> (#[trigger] self.matches[i]).id < self.next_id
        &&& forall|i: int, j: int|
            #![trigger self.users[i], self.users[j]]
            0 <= i < j < self.users.len() ==> self.users[i].id < self.users[j].id
        &&& forall|i: int, j: int|
            #![trigger self.teams[i], self.teams[j]]
            0 <= i < j < self.teams.len() ==> self.teams[i].id < self.teams[j].id
        &&& forall|i: int, j: int|
            #![trigger self.matches[i], self.matches[j]]
            0 <= i < j < self.matches.len() ==> self.matches[i].id < self.matches[j].id
        &&& forall|i: int, j: int|
            #![trigger self.users[i], self.users[j]]
            0 <= i < self.users.len() && 0 <= j < self.users.len() && i != j
                ==> self.users[i].email@ != self.users[j].email@
        &&& forall|i: int|
            0 <= i < self.teams.len() ==> (#[trigger] self.teams[i]).members.no_duplicates()
                && self.teams[i].coaches.no_duplicates()
        &&& forall|i: int, j: int, m: u64|
            0 <= i < self.teams.len() && 0 <= j < self.teams.len() && i != j
                && #[trigger] self.teams[i].members.contains(m)
                ==> !(#[trigger] self.teams[j].members.contains(m))
        &&& forall|i: int, j: int, c: u64|
            0 <= i < self.teams.len() && 0 <= j < self.teams.len() && i != j
                && #[trigger] self.teams[i].coaches.contains(c)
                ==> !(#[trigger] self.teams[j].coaches.contains(c))
        &&& forall|i: int, m: u64|
            0 <= i < self.teams.len() && #[trigger] self.teams[i].members.contains(m) ==> self.has_user(m)
        &&& forall|i: int, c: u64|
            0 <= i < self.teams.len() && #[trigger] self.teams[i].coaches.contains(c) ==> self.has_user(c)
        &&& forall|i: int|
            0 <= i < self.matches.len() ==> (#[trigger] self.matches[i]).home_team.id
                != self.matches[i].away_team.id
    }

    pub open spec fn has_user(self, id: u64) -> bool {
        exists|i: int| 0 <= i < self.users.len() && (#[trigger] self.users[i]).id == id
    }

    pub open spec fn user_index(self, id: u64) -> int {
        choose|i: int| 0 <= i < self.users.len() && (#[trigger] self.users[i]).id == id
    }

    pub open spec fn has_team(self, id: u64) -> bool {
        exists|i: int| 0 <= i < self.teams.len() && (#[trigger] self.teams[i]).id == id
    }

    pub open spec fn team_index(self, id: u64) -> int {
        choose|i: int| 0 <= i < self.teams.len() && (#[trigger] self.teams[i]).id == id
    }

    pub open spec fn has_match(self, id: u64) -> bool {
        exists|i: int| 0 <= i < self.matches.len() && (#[trigger] self.matches[i]).id == id
    }

    pub open spec fn match_index(self, id: u64) -> int {
        choose|i: int| 0 <= i < self.matches.len() && (#[trigger] self.matches[i]).id == id
    }

    /// Some user other than `id` has this email.
    pub open spec fn email_used_by_other(self, email: Seq<char>, id: u64) -> bool {
        exists|i: int|
            0 <= i < self.users.len() && (#[trigger] self.users[i]).email@ == email
                && self.users[i].id != id
    }

    /// `m` is a member of some team.
    pub open spec fn in_some_team(self, m: u64) -> bool {
        exists|i: int| 0 <= i < self.teams.len() && (#[trigger] self.teams[i]).members.contains(m)
    }

    /// `c` coaches some team.
    pub open spec fn coaches_some_team(self, c: u64) -> bool {
        exists|i: int| 0 <= i < self.teams.len() && (#[trigger] self.teams[i]).coaches.contains(c)
    }

    pub open spec fn with_user(self, u: User) -> StoreView {
        StoreView { next_id: (self.next_id + 1) as u64, users: self.users.push(u), ..self }
    }

    pub open spec fn with_user_at(self, i: int, u: User) -> StoreView {
        StoreView { users: self.users.update(i, u), ..self }
    }

    pub open spec fn with_team(self, t: TeamView) -> StoreView {
        StoreView { next_id: (self.next_id + 1) as u64, teams: self.teams.push(t), ..self }
    }

    pub open spec fn with_team_at(self, i: int, t: TeamView) -> StoreView {
        StoreView { teams: self.teams.update(i, t), ..self }
    }

    pub open spec fn with_match(self, m: MatchView) -> StoreView {
        StoreView { next_id: (self.next_id + 1) as u64, matches: self.matches.push(m), ..self }
    }

    pub open spec fn with_match_at(self, i: int, m: MatchView) -> StoreView {
        StoreView { matches: self.matches.update(i, m), ..self }
    }
}

/// Keeping every user's identifier, and perhaps adding users, keeps every
/// identifier that named a user naming one.
proof fn lemma_user_ids_kept(before: StoreView, after: StoreView)
    requires
        before.users.len() <= after.users.len(),
        forall|k: int| 0 <= k < before.users.len() ==> after.users[k].id == before.users[k].id,
    ensures
        forall|m: u64| before.has_user(m) ==> after.has_user(m),
{
    assert forall|m: u64| before.has_user(m) implies after.has_user(m) by {
        let k = choose|k: int| 0 <= k < before.users.len() && (#[trigger] before.users[k]).id == m;
        assert(after.users[k].id == m);
    }
}

/// Whether some user in `users` has `email`.
pub fn validate_email_uniqueness(users: &Vec<User>, email: &String) -> (r: Result<(), String>)
    ensures
        r is Ok <==> !email_in(users@, email@),
        r matches Err(m) ==> m@ == "User with this email already exists"@,
{
    let mut i: usize = 0;
    while i < users.len()
        invariant
            i <= users.len(),
            forall|k: int| 0 <= k < i ==> (#[trigger] users@[k]).email@ != email@,
        decreases users.len() - i,
    {
        if users[i].email == *email {
            return Err("User with this email already exists".to_string());
        }
        i = i + 1;
    }
    Ok(())
}

/// Some user in `users` is owned by `owner`.
pub open spec fn owner_in(users: Seq<User>, owner: Seq<char>) -> bool {
    exists|i: int| 0 <= i < users.len() && (#[trigger] users[i]).owner@ == owner
}

/// `i` is the first position in `users` owned by `owner`.
pub open spec fn first_owned_at(users: Seq<User>, i: int, owner: Seq<char>) -> bool {
    &&& 0 <= i < users.len()
    &&& users[i].owner@ == owner
    &&& forall|k: int| 0 <= k < i ==> (#[trigger] users[k]).owner@ != owner
}

/// Some user in `users` has a name whose lowercase form is `folded`.
pub open spec fn name_in(users: Seq<User>, folded: Seq<char>) -> bool {
    exists|i: int| 0 <= i < users.len() && lower_of((#[trigger] users[i]).name@) == folded
}

/// `i` is the first position in `users` whose name lowercases to `folded`.
pub open spec fn first_named_at(users: Seq<User>, i: int, folded: Seq<char>) -> bool {
    &&& 0 <= i < users.len()
    &&& lower_of(users[i].name@) == folded
    &&& forall|k: int| 0 <= k < i ==> lower_of((#[trigger] users[k]).name@) != folded
}

/// The first position in `names` that holds `wanted`.
pub fn first_name_match(names: &Vec<String>, wanted: &String) -> (r: Option<usize>)
    ensures
        match r {
            Some(i) => i < names.len() && names@[i as int]@ == wanted@ && forall|k: int|
                0 <= k < i ==> (#[trigger] names@[k])@ != wanted@,
            None => forall|k: int| 0 <= k < names.len() ==> (#[trigger] names@[k])@ != wanted@,
        },
{
    let mut i: usize = 0;
    while i < names.len()
        invariant
            i <= names.len(),
            forall|k: int| 0 <= k < i ==> (#[trigger] names@[k])@ != wanted@,
        decreases names.len() - i,
    {
        if names[i] == *wanted {
            return Some(i);
        }
        i = i + 1;
    }
    None
}

/// Whether `v` holds `x`.
pub fn ids_contain(v: &Vec<u64>, x: u64) -> (r: bool)
    ensures
        r == v@.contains(x),
{
    let mut i: usize = 0;
    while i < v.len()
        invariant
            i <= v.len(),
            forall|k: int| 0 <= k < i ==> v@[k] != x,
        decreases v.len() - i,
    {
        if v[i] == x {
            assert(v@[i as int] == x);
            return true;
        }
        i = i + 1;
    }
    false
}

impl MatchView {
    pub open spec fn with_result(self, res: crate::models::MatchResult) -> MatchView {
        MatchView { result: Some(res), ..self }
    }
}

/// The home or the away team of `m` is `team_id`.
pub open spec fn involves_team(m: MatchView, team_id: u64) -> bool {
    m.home_team.id == team_id || m.away_team.id == team_id
}

/// Selects the matches in which team `team_id` plays.
pub open spec fn by_team(team_id: u64) -> spec_fn(MatchView) -> bool {
    |m: MatchView| involves_team(m, team_id)
}

/// Selects the matches of one sport.
pub open spec fn by_sport(sport_type: SportType) -> spec_fn(MatchView) -> bool {
    |m: MatchView| m.sport_type == sport_type
}

/// Selects the matches scheduled on `date`.
pub open spec fn by_date(date: Seq<char>) -> spec_fn(MatchView) -> bool {
    |m: MatchView| m.scheduled_date == date
}

/// The views of a list of matches.
pub open spec fn match_views(v: Seq<Match>) -> Seq<MatchView> {
    v.map_values(|m: Match| m@)
}

proof fn lemma_filter_step(s: Seq<MatchView>, i: int, pred: spec_fn(MatchView) -> bool)
    requires
        0 <= i < s.len(),
    ensures
        s.subrange(0, i + 1).filter(pred) == if pred(s[i]) {
            s.subrange(0, i).filter(pred).push(s[i])
        } else {
            s.subrange(0, i).filter(pred)
        },
{
    reveal_with_fuel(Seq::filter, 1);
    assert(s.subrange(0, i + 1).drop_last() =~= s.subrange(0, i));
}

proof fn lemma_views_push(v: Seq<Match>, m: Match)
    ensures
        match_views(v.push(m)) == match_views(v).push(m@),
{
    assert(match_views(v.push(m)) =~= match_views(v).push(m@));
}

impl Store {
    pub open spec fn wf(&self) -> bool {
        self.ids.wf() && self@.wf()
    }

    /// An identifier can still be handed out.
    pub open spec fn can_allocate(&self) -> bool {
        self.ids.next < u64::MAX
    }

    /// An empty store whose first identifier is 0.
    pub fn new() -> (r: Store)
        ensures
            r.wf(),
            r@.next_id == 0,
            r@.users.len() == 0,
            r@.teams.len() == 0,
            r@.matches.len() == 0,
    {
        let r = Store { ids: IdAllocator::new(), users: Vec::new(), teams: Vec::new(), matches: Vec::new() };
        assert(r@.teams =~= Seq::<TeamView>::empty());
        assert(r@.matches =~= Seq::<MatchView>::empty());
        r
    }

    fn user_position(&self, id: u64) -> (r: Option<usize>)
        requires
            self.wf(),
        ensures
            match r {
                Some(i) => i < self.users.len() && i == self@.user_index(id) && self@.has_user(id),
                None => !self@.has_user(id),
            },
    {
        let mut i: usize = 0;
        while i < self.users.len()
            invariant
                self.wf(),
                i <= self.users.len(),
                forall|k: int| 0 <= k < i ==> (#[trigger] self.users@[k]).id != id,
            decreases self.users.len() - i,
        {
            if self.users[i].id == id {
                proof {
                    assert(self@.users[i as int].id == id);
                    assert(self@.has_user(id));
                    let j = self@.user_index(id);
                    assert(self@.users[j].id == id);
                    if j < i {
                        assert(self@.users[j].id < self@.users[i as int].id);
                    } else if j > i {
                        assert(self@.users[i as int].id < self@.users[j].id);
                    }
                }
                return Some(i);
            }
            i = i + 1;
        }
        None
    }

    fn team_position(&self, id: u64) -> (r: Option<usize>)
        requires
            self.wf(),
        ensures
            match r {
                Some(i) => i < self.teams.len() && i == self@.team_index(id) && self@.has_team(id),
                None => !self@.has_team(id),
            },
    {
        let mut i: usize = 0;
        while i < self.teams.len()
            invariant
                self.wf(),
                i <= self.teams.len(),
                forall|k: int| 0 <= k < i ==> (#[trigger] self@.teams[k]).id != id,
            decreases self.teams.len() - i,
        {
            if self.teams[i].id == id {
                proof {
                    assert(self@.teams[i as int].id == id);
                    assert(self@.has_team(id));
                    let j = self@.team_index(id);
                    assert(self@.teams[j].id == id);
                    if j < i {
                        assert(self@.teams[j].id < self@.teams[i as int].id);
                    } else if j > i {
                        assert(self@.teams[i as int].id < self@.teams[j].id);
                    }
                }
                return Some(i);
            }
            i = i + 1;
        }
        None
    }

    fn match_position(&self, id: u64) -> (r: Option<usize>)
        requires
            self.wf(),
        ensures
            match r {
                Some(i) => i < self.matches.len() && i == self@.match_index(id) && self@.has_match(id),
                None => !self@.has_match(id),
            },
    {
        let mut i: usize = 0;
        while i < self.matches.len()
            invariant
                self.wf(),
                i <= self.matches.len(),
                forall|k: int| 0 <= k < i ==> (#[trigger] self@.matches[k]).id != id,
            decreases self.matches.len() - i,
        {
            if self.matches[i].id == id {
                proof {
                    assert(self@.matches[i as int].id == id);
                    assert(self@.has_match(id));
                    let j = self@.match_index(id);
                    assert(self@.matches[j].id == id);
                    if j < i {
                        assert(self@.matches[j].id < self@.matches[i as int].id);
                    } else if j > i {
                        assert(self@.matches[i as int].id < self@.matches[j].id);
                    }
                }
                return Some(i);
            }
            i = i + 1;
        }
        None
    }

    /// Whether a user other than `id` has `email`.
    fn email_taken_by_other(&self, email: &String, id: u64) -> (r: bool)
        ensures
            r == self@.email_used_by_other(email@, id),
    {
        let mut i: usize = 0;
        while i < self.users.len()
            invariant
                i <= self.users.len(),
                forall|k: int|
                    0 <= k < i ==> !((#[trigger] self@.users[k]).email@ == email@ && self@.users[k].id != id),
            decreases self.users.len() - i,
        {
            if self.users[i].email == *email && self.users[i].id != id {
                assert(self@.users[i as int].email@ == email@);
                return true;
            }
            i = i + 1;
        }
        false
    }

    /// Replaces the details of user `payload.id`, which `caller` then owns.
    pub fn update_user(&mut self, payload: UpdateUserPayload, caller: String) -> (r: Result<User, Error>)
        requires
            old(self).wf(),
        ensures
            final(self).wf(),
            is_not_found(r) <==> !old(self)@.has_user(payload.id),
            is_invalid(r) <==> old(self)@.has_user(payload.id) && !valid_email(payload.email@),
            is_conflict(r) <==> old(self)@.has_user(payload.id) && valid_email(payload.email@)
                && old(self)@.email_used_by_other(payload.email@, payload.id),
            r is Ok <==> old(self)@.has_user(payload.id) && valid_email(payload.email@)
                && !old(self)@.email_used_by_other(payload.email@, payload.id),
            is_not_found(r) ==> error_text(r) == "User not found"@,
            is_invalid(r) ==> error_text(r) == "Invalid email format"@,
            is_conflict(r) ==> error_text(r) == "User with this email already exists"@,
            r matches Ok(u) ==> u == updated_user(payload, caller) && final(self)@ == old(self)@.with_user_at(
                old(self)@.user_index(payload.id),
                u,
            ),
            r is Err ==> final(self)@ == old(self)@,
    {
        let pos = match self.user_position(payload.id) {
            Some(pos) => pos,
            None => {
                return Err(not_found("User not found"));
            },
        };
        if validate_email_format(payload.email.as_str()).is_err() {
            return Err(invalid("Invalid email format"));
        }
        if self.email_taken_by_other(&payload.email, payload.id) {
            return Err(conflict("User with this email already exists"));
        }
        let ghost old_view = self@;
        let user = User {
            id: payload.id,
            owner: caller,
            name: payload.name,
            email: payload.email,
            address: payload.address,
            role: payload.role,
        };
        self.users.set(pos, user.copy());
        proof {
            assert(self@ =~= old_view.with_user_at(pos as int, user));
            lemma_user_ids_kept(old_view, self@);
            assert forall|k: int| 0 <= k < self@.users.len() && k != pos implies
                (#[trigger] self@.users[k]).email@ != user.email@ by {
                assert(old_view.users[k] == self@.users[k]);
                if k < pos {
                    assert(old_view.users[k].id < old_view.users[pos as int].id);
                } else {
                    assert(old_view.users[pos as int].id < old_view.users[k].id);
                }
            }
        }
        Ok(user)
    }

    /// The user with identifier `id`.
    pub fn get_user(&self, id: u64) -> (r: Result<User, Error>)
        requires
            self.wf(),
        ensures
            is_not_found(r) <==> !self@.has_user(id),
            r is Ok <==> self@.has_user(id),
            is_not_found(r) ==> error_text(r) == "User with ID "@ + decimal_of(id as nat) + " not found"@,
            r matches Ok(u) ==> u == self@.users[self@.user_index(id)],
    {
        match self.user_position(id) {
            Some(pos) => Ok(self.users[pos].copy()),
            None => Err(Error::NotFound { msg: join3("User with ID ", decimal(id).as_str(), " not found") }),
        }
    }

    /// The first user, in order of identifier, owned by `caller`.
    pub fn get_user_by_owner(&self, caller: &String) -> (r: Result<User, Error>)
        ensures
            is_not_found(r) <==> !owner_in(self@.users, caller@),
            r is Ok <==> owner_in(self@.users, caller@),
            is_not_found(r) ==> error_text(r) == "User not found for caller: "@ + caller@,
            r matches Ok(u) ==> exists|i: int| first_owned_at(self@.users, i, caller@) && u == self@.users[i],
    {
        let mut i: usize = 0;
        while i < self.users.len()
            invariant
                i <= self.users.len(),
                forall|k: int| 0 <= k < i ==> (#[trigger] self@.users[k]).owner@ != caller@,
            decreases self.users.len() - i,
        {
            if self.users[i].owner == *caller {
                assert(first_owned_at(self@.users, i as int, caller@));
                return Ok(self.users[i].copy());
            }
            i = i + 1;
        }
        Err(Error::NotFound { msg: join2("User not found for caller: ", caller.as_str()) })
    }

    /// Every user, in order of identifier; a store without users is an error.
    pub fn get_all_users(&self) -> (r: Result<Vec<User>, Error>)
        ensures
            is_conflict(r) <==> self@.users.len() == 0,
            r is Ok <==> self@.users.len() > 0,
            is_conflict(r) ==> error_text(r) == "No users found"@,
            r matches Ok(v) ==> v@ == self@.users,
    {
        let mut out: Vec<User> = Vec::new();
        let mut i: usize = 0;
        while i < self.users.len()
            invariant
                i <= self.users.len(),
                out@ == self@.users.subrange(0, i as int),
            decreases self.users.len() - i,
        {
            out.push(self.users[i].copy());
            assert(out@ =~= self@.users.subrange(0, i + 1));
            i = i + 1;
        }
        assert(out@ =~= self@.users);
        if out.len() == 0 {
            Err(conflict("No users found"))
        } else {
            Ok(out)
        }
    }

    /// The first user, in order of identifier, whose name equals `name` once
    /// both are lowercased.
    pub fn get_user_by_name(&self, name: &String) -> (r: Result<User, Error>)
        ensures
            is_not_found(r) <==> !name_in(self@.users, lower_of(name@)),
            r is Ok <==> name_in(self@.users, lower_of(name@)),
            is_not_found(r) ==> error_text(r) == "User with name "@ + name@ + " not found"@,
            r matches Ok(u) ==> exists|i: int|
                first_named_at(self@.users, i, lower_of(name@)) && u == self@.users[i],
    {
        let wanted = lowercase(name.as_str());
        let mut folded: Vec<String> = Vec::new();
        let mut i: usize = 0;
        while i < self.users.len()
            invariant
                i <= self.users.len(),
                folded.len() == i,
                forall|k: int| 0 <= k < i ==> (#[trigger] folded@[k])@ == lower_of(self@.users[k].name@),
            decreases self.users.len() - i,
        {
            folded.push(lowercase(self.users[i].name.as_str()));
            i = i + 1;
        }
        match first_name_match(&folded, &wanted) {
            Some(k) => {
                proof {
                    assert(folded@[k as int]@ == lower_of(self@.users[k as int].name@));
                    assert forall|j: int| 0 <= j < k implies lower_of((#[trigger] self@.users[j]).name@)
                        != lower_of(name@) by {
                        assert(folded@[j]@ != wanted@);
                    }
                }
                assert(first_named_at(self@.users, k as int, lower_of(name@)));
                Ok(self.users[k].copy())
            },
            None => {
                assert(!name_in(self@.users, lower_of(name@))) by {
                    if name_in(self@.users, lower_of(name@)) {
                        let k = choose|k: int|
                            0 <= k < self@.users.len() && lower_of((#[trigger] self@.users[k]).name@)
                                == lower_of(name@);
                        assert(folded@[k]@ == wanted@);
                    }
                }
                Err(Error::NotFound { msg: join3("User with name ", name.as_str(), " not found") })
            },
        }
    }

    /// Whether `m` is a member of any team.
    fn member_of_any_team(&self, m: u64) -> (r: bool)
        ensures
            r == self@.in_some_team(m),
    {
        let mut i: usize = 0;
        while i < self.teams.len()
            invariant
                i <= self.teams.len(),
                forall|k: int| 0 <= k < i ==> !(#[trigger] self@.teams[k]).members.contains(m),
            decreases self.teams.len() - i,
        {
            if ids_contain(&self.teams[i].members, m) {
                assert(self@.teams[i as int].members.contains(m));
                return true;
            }
            i = i + 1;
        }
        false
    }

    /// Whether `c` coaches any team.
    fn coach_of_any_team(&self, c: u64) -> (r: bool)
        ensures
            r == self@.coaches_some_team(c),
    {
        let mut i: usize = 0;
        while i < self.teams.len()
            invariant
                i <= self.teams.len(),
                forall|k: int| 0 <= k < i ==> !(#[trigger] self@.teams[k]).coaches.contains(c),
            decreases self.teams.len() - i,
        {
            if ids_contain(&self.teams[i].coaches, c) {
                assert(self@.teams[i as int].coaches.contains(c));
                return true;
            }
            i = i + 1;
        }
        false
    }

    /// Creates a team without members or coaches.
    pub fn create_team(&mut self, payload: CreateTeamPayload) -> (r: Result<Team, Error>)
        requires
            old(self).wf(),
            payload.name@.len() > 0 ==> old(self).can_allocate(),
        ensures
            final(self).wf(),
            is_invalid(r) <==> payload.name@.len() == 0,
            r is Ok <==> payload.name@.len() > 0,
            is_invalid(r) ==> error_text(r) == "Name is a required field"@,
            r matches Ok(t) ==> t@ == (TeamView {
                id: old(self)@.next_id,
                name: payload.name@,
                coaches: Seq::empty(),
                sport_type: payload.sport_type,
                members: Seq::empty(),
            }) && final(self)@ == old(self)@.with_team(t@),
            r is Err ==> final(self)@ == old(self)@,
    {
        if payload.name.as_str().is_empty() {
            return Err(invalid("Name is a required field"));
        }
        let ghost old_view = self@;
        let id = generate_uuid(&mut self.ids);
        let team = Team {
            id,
            name: payload.name,
            sport_type: payload.sport_type,
            members: Vec::new(),
            coaches: Vec::new(),
        };
        self.teams.push(team.copy());
        proof {
            assert(team@.members =~= Seq::<u64>::empty());
            assert(team@.coaches =~= Seq::<u64>::empty());
            assert(self@.teams =~= old_view.teams.push(team@));
            assert(self@ =~= old_view.with_team(team@));
        }
        Ok(team)
    }

    /// The team with identifier `id`.
    pub fn get_team(&self, id: u64) -> (r: Result<Team, Error>)
        requires
            self.wf(),
        ensures
            is_not_found(r) <==> !self@.has_team(id),
            r is Ok <==> self@.has_team(id),
            is_not_found(r) ==> error_text(r) == "Team with ID "@ + decimal_of(id as nat) + " not found"@,
            r matches Ok(t) ==> t@ == self@.teams[self@.team_index(id)],
    {
        match self.team_position(id) {
            Some(pos) => Ok(self.teams[pos].copy()),
            None => Err(Error::NotFound { msg: join3("Team with ID ", decimal(id).as_str(), " not found") }),
        }
    }

    /// Every team, in order of identifier; a store without teams is an error.
    pub fn get_all_teams(&self) -> (r: Result<Vec<Team>, Error>)
        ensures
            is_conflict(r) <==> self@.teams.len() == 0,
            r is Ok <==> self@.teams.len() > 0,
            is_conflict(r) ==> error_text(r) == "No teams found"@,
            r matches Ok(v) ==> v@.map_values(|t: Team| t@) == self@.teams,
    {
        let mut out: Vec<Team> = Vec::new();
        let mut i: usize = 0;
        while i < self.teams.len()
            invariant
                i <= self.teams.len(),
                out.len() == i,
                forall|k: int| 0 <= k < i ==> (#[trigger] out@[k])@ == self@.teams[k],
            decreases self.teams.len() - i,
        {
            out.push(self.teams[i].copy());
            i = i + 1;
        }
        assert(out@.map_values(|t: Team| t@) =~= self@.teams);
        if out.len() == 0 {
            Err(conflict("No teams found"))
        } else {
            Ok(out)
        }
    }

    /// Adds player `payload.member_id` to team `payload.team_id`. A player
    /// belongs to at most one team.
    pub fn add_member_to_team(&mut self, payload: AddMemberPayload) -> (r: Result<Team, Error>)
        requires
            old(self).wf(),
        ensures
            final(self).wf(),
            is_not_found(r) <==> !old(self)@.has_team(payload.team_id) || !old(self)@.has_user(
                payload.member_id,
            ),
            is_conflict(r) <==> old(self)@.has_team(payload.team_id) && old(self)@.has_user(payload.member_id)
                && (old(self)@.in_some_team(payload.member_id)
                || old(self)@.users[old(self)@.user_index(payload.member_id)].role != UserRole::Player),
            r is Ok <==> old(self)@.has_team(payload.team_id) && old(self)@.has_user(payload.member_id)
                && !old(self)@.in_some_team(payload.member_id)
                && old(self)@.users[old(self)@.user_index(payload.member_id)].role == UserRole::Player,
            !old(self)@.has_team(payload.team_id) ==> error_text(r) == "Team not found"@,
            is_not_found(r) && old(self)@.has_team(payload.team_id) ==> error_text(r) == "Member with ID "@ + decimal_of(payload.member_id as nat) + " not found"@,
            is_conflict(r) && old(self)@.in_some_team(payload.member_id) ==> error_text(r) == "Member is already part of a team"@,
            is_conflict(r) && !old(self)@.in_some_team(payload.member_id) ==> error_text(r) == "Member must be a player"@,
            r matches Ok(t) ==> t@ == old(self)@.teams[old(self)@.team_index(payload.team_id)].with_member(
                payload.member_id,
            ) && final(self)@ == old(self)@.with_team_at(old(self)@.team_index(payload.team_id), t@),
            r is Err ==> final(self)@ == old(self)@,
    {
        let team_id = payload.team_id;
        let member_id = payload.member_id;
        let pos = match self.team_position(team_id) {
            Some(pos) => pos,
            None => {
                return Err(not_found("Team not found"));
            },
        };
        let upos = match self.user_position(member_id) {
            Some(upos) => upos,
            None => {
                return Err(Error::NotFound { msg: join3("Member with ID ", decimal(member_id).as_str(), " not found") });
            },
        };
        if self.member_of_any_team(member_id) {
            return Err(conflict("Member is already part of a team"));
        }
        if !has_role(&self.users[upos], UserRole::Player) {
            return Err(conflict("Member must be a player"));
        }
        let ghost old_view = self@;
        let mut team = self.teams[pos].copy();
        team.members.push(member_id);
        self.teams.set(pos, team.copy());
        proof {
            let tv = old_view.teams[pos as int];
            assert(team@ == tv.with_member(member_id));
            assert(self@.teams =~= old_view.teams.update(pos as int, team@));
            assert(self@ =~= old_view.with_team_at(pos as int, team@));
            assert forall|i: int| 0 <= i < old_view.teams.len() implies !(#[trigger] roster(
                old_view.teams[i],
                false,
            )).contains(member_id) by {
                assert(!old_view.teams[i].members.contains(member_id));
            }
            lemma_roster_push(old_view, self@, pos as int, member_id, false);
        }
        Ok(team)
    }

    /// Makes coach `payload.coach_id` a coach of team `payload.team_id`. A
    /// coach coaches at most one team.
    pub fn assign_coach(&mut self, payload: AssignCoachPayload) -> (r: Result<Team, Error>)
        requires
            old(self).wf(),
        ensures
            final(self).wf(),
            is_not_found(r) <==> !old(self)@.has_team(payload.team_id) || !old(self)@.has_user(
                payload.coach_id,
            ),
            is_conflict(r) <==> old(self)@.has_team(payload.team_id) && old(self)@.has_user(payload.coach_id)
                && (old(self)@.coaches_some_team(payload.coach_id)
                || old(self)@.users[old(self)@.user_index(payload.coach_id)].role != UserRole::Coach),
            r is Ok <==> old(self)@.has_team(payload.team_id) && old(self)@.has_user(payload.coach_id)
                && !old(self)@.coaches_some_team(payload.coach_id)
                && old(self)@.users[old(self)@.user_index(payload.coach_id)].role == UserRole::Coach,
            !old(self)@.has_team(payload.team_id) ==> error_text(r) == "Team not found"@,
            is_not_found(r) && old(self)@.has_team(payload.team_id) ==> error_text(r) == "Coach with ID "@ + decimal_of(payload.coach_id as nat) + " not found"@,
            is_conflict(r) && old(self)@.coaches_some_team(payload.coach_id) ==> error_text(r) == "Coach is already part of a team"@,
            is_conflict(r) && !old(self)@.coaches_some_team(payload.coach_id) ==> error_text(r) == "Coach must have Coach role"@,
            r matches Ok(t) ==> t@ == old(self)@.teams[old(self)@.team_index(payload.team_id)].with_coach(
                payload.coach_id,
            ) && final(self)@ == old(self)@.with_team_at(old(self)@.team_index(payload.team_id), t@),
            r is Err ==> final(self)@ == old(self)@,
    {
        let team_id = payload.team_id;
        let coach_id = payload.coach_id;
        let pos = match self.team_position(team_id) {
            Some(pos) => pos,
            None => {
                return Err(not_found("Team not found"));
            },
        };
        let upos = match self.user_position(coach_id) {
            Some(upos) => upos,
            None => {
                return Err(Error::NotFound { msg: join3("Coach with ID ", decimal(coach_id).as_str(), " not found") });
            },
        };
        if self.coach_of_any_team(coach_id) {
            return Err(conflict("Coach is already part of a team"));
        }
        if !has_role(&self.users[upos], UserRole::Coach) {
            return Err(conflict("Coach must have Coach role"));
        }
        let ghost old_view = self@;
        let mut team = self.teams[pos].copy();
        team.coaches.push(coach_id);
        self.teams.set(pos, team.copy());
        proof {
            let tv = old_view.teams[pos as int];
            assert(team@ == tv.with_coach(coach_id));
            assert(self@.teams =~= old_view.teams.update(pos as int, team@));
            assert(self@ =~= old_view.with_team_at(pos as int, team@));
            assert forall|i: int| 0 <= i < old_view.teams.len() implies !(#[trigger] roster(
                old_view.teams[i],
                true,
            )).contains(coach_id) by {
                assert(!old_view.teams[i].coaches.contains(coach_id));
            }
            lemma_roster_push(old_view, self@, pos as int, coach_id, true);
        }
        Ok(team)
    }

    /// Schedules a match between two distinct existing teams. The match holds
    /// copies of both teams as they are now, and no result.
    pub fn schedule_match(&mut self, payload: ScheduleMatchPayload) -> (r: Result<Match, Error>)
        requires
            old(self).wf(),
            payload.scheduled_date@.len() > 0 && old(self)@.has_team(payload.home_team_id)
                && old(self)@.has_team(payload.away_team_id) && payload.home_team_id != payload.away_team_id ==> old(self).can_allocate(),
        ensures
            final(self).wf(),
            payload.home_team_id == payload.away_team_id ==> r is Err,
            is_invalid(r) <==> payload.scheduled_date@.len() == 0,
            is_not_found(r) <==> payload.scheduled_date@.len() > 0 && (!old(self)@.has_team(
                payload.home_team_id,
            ) || !old(self)@.has_team(payload.away_team_id)),
            is_conflict(r) <==> payload.scheduled_date@.len() > 0 && old(self)@.has_team(payload.home_team_id)
                && old(self)@.has_team(payload.away_team_id) && payload.home_team_id == payload.away_team_id,
            r is Ok <==> payload.scheduled_date@.len() > 0 && old(self)@.has_team(payload.home_team_id)
                && old(self)@.has_team(payload.away_team_id) && payload.home_team_id != payload.away_team_id,
            is_invalid(r) ==> error_text(r) == "Ensure scheduled date is provided in the format YYYY-MM-DD"@,
            is_conflict(r) ==> error_text(r) == "Home team and away team cannot be the same team"@,
            is_not_found(r) && !old(self)@.has_team(payload.home_team_id) ==> error_text(r) == "Home team not found"@,
            is_not_found(r) && old(self)@.has_team(payload.home_team_id) ==> error_text(r) == "Away team not found"@,
            r matches Ok(m) ==> m@ == (MatchView {
                id: old(self)@.next_id,
                home_team: old(self)@.teams[old(self)@.team_index(payload.home_team_id)],
                away_team: old(self)@.teams[old(self)@.team_index(payload.away_team_id)],
                sport_type: payload.sport_type,
                scheduled_date: payload.scheduled_date@,
                result: None,
            }) && final(self)@ == old(self)@.with_match(m@),
            r is Err ==> final(self)@ == old(self)@,
    {
        if payload.scheduled_date.as_str().is_empty() {
            return Err(invalid("Ensure scheduled date is provided in the format YYYY-MM-DD"));
        }
        let home_pos = match self.team_position(payload.home_team_id) {
            Some(pos) => pos,
            None => {
                return Err(not_found("Home team not found"));
            },
        };
        let away_pos = match self.team_position(payload.away_team_id) {
            Some(pos) => pos,
            None => {
                return Err(not_found("Away team not found"));
            },
        };
        if payload.home_team_id == payload.away_team_id {
            return Err(conflict("Home team and away team cannot be the same team"));
        }
        let ghost old_view = self@;
        let id = generate_uuid(&mut self.ids);
        let match_obj = Match {
            id,
            home_team: self.teams[home_pos].copy(),
            away_team: self.teams[away_pos].copy(),
            sport_type: payload.sport_type,
            scheduled_date: payload.scheduled_date,
            result: None,
        };
        self.matches.push(match_obj.copy());
        proof {
            assert(self@.matches =~= old_view.matches.push(match_obj@));
            assert(self@ =~= old_view.with_match(match_obj@));
        }
        Ok(match_obj)
    }

    /// Records the result of match `payload.match_id`. A result is written
    /// once and never replaced.
    pub fn submit_match_result(&mut self, payload: MatchResultPayload) -> (r: Result<Match, Error>)
        requires
            old(self).wf(),
        ensures
            final(self).wf(),
            is_not_found(r) <==> !old(self)@.has_match(payload.match_id),
            is_conflict(r) <==> old(self)@.has_match(payload.match_id)
                && old(self)@.matches[old(self)@.match_index(payload.match_id)].result is Some,
            r is Ok <==> old(self)@.has_match(payload.match_id)
                && old(self)@.matches[old(self)@.match_index(payload.match_id)].result is None,
            is_not_found(r) ==> error_text(r) == "Match with ID "@ + decimal_of(payload.match_id as nat) + " not found"@,
            is_conflict(r) ==> error_text(r) == "Match result has already been submitted"@,
            r matches Ok(m) ==> m@ == old(self)@.matches[old(self)@.match_index(payload.match_id)].with_result(
                payload.result,
            ) && final(self)@ == old(self)@.with_match_at(old(self)@.match_index(payload.match_id), m@),
            r is Err ==> final(self)@ == old(self)@,
    {
        let pos = match self.match_position(payload.match_id) {
            Some(pos) => pos,
            None => {
                return Err(Error::NotFound { msg: join3("Match with ID ", decimal(payload.match_id).as_str(), " not found") });
            },
        };
        if self.matches[pos].result.is_some() {
            return Err(conflict("Match result has already been submitted"));
        }
        let ghost old_view = self@;
        let mut updated = self.matches[pos].copy();
        updated.result = Some(payload.result);
        self.matches.set(pos, updated.copy());
        proof {
            assert(self@.matches =~= old_view.matches.update(pos as int, updated@));
            assert(self@ =~= old_view.with_match_at(pos as int, updated@));
        }
        Ok(updated)
    }

    /// The match with identifier `id`.
    pub fn get_match(&self, id: u64) -> (r: Result<Match, Error>)
        requires
            self.wf(),
        ensures
            is_not_found(r) <==> !self@.has_match(id),
            r is Ok <==> self@.has_match(id),
            is_not_found(r) ==> error_text(r) == "Match with ID "@ + decimal_of(id as nat) + " not found"@,
            r matches Ok(m) ==> m@ == self@.matches[self@.match_index(id)],
    {
        match self.match_position(id) {
            Some(pos) => Ok(self.matches[pos].copy()),
            None => Err(Error::NotFound { msg: join3("Match with ID ", decimal(id).as_str(), " not found") }),
        }
    }

    /// Every match, in order of identifier; a store without matches is an
    /// error.
    pub fn get_all_matches(&self) -> (r: Result<Vec<Match>, Error>)
        ensures
            is_conflict(r) <==> self@.matches.len() == 0,
            r is Ok <==> self@.matches.len() > 0,
            is_conflict(r) ==> error_text(r) == "No matches found"@,
            r matches Ok(v) ==> match_views(v@) == self@.matches,
    {
        let mut out: Vec<Match> = Vec::new();
        let mut i: usize = 0;
        while i < self.matches.len()
            invariant
                i <= self.matches.len(),
                out.len() == i,
                forall|k: int| 0 <= k < i ==> (#[trigger] out@[k])@ == self@.matches[k],
            decreases self.matches.len() - i,
        {
            out.push(self.matches[i].copy());
            i = i + 1;
        }
        assert(match_views(out@) =~= self@.matches);
        if out.len() == 0 {
            Err(conflict("No matches found"))
        } else {
            Ok(out)
        }
    }

    /// The matches in which team `team_id` plays, home or away, in order of
    /// identifier; none is an error.
    pub fn get_matches_by_team(&self, team_id: u64) -> (r: Result<Vec<Match>, Error>)
        ensures
            is_conflict(r) <==> self@.matches.filter(by_team(team_id)).len() == 0,
            r is Ok <==> self@.matches.filter(by_team(team_id)).len() > 0,
            is_conflict(r) ==> error_text(r) == "No matches found for this team"@,
            r matches Ok(v) ==> match_views(v@) == self@.matches.filter(by_team(team_id)),
    {
        let mut out: Vec<Match> = Vec::new();
        let mut i: usize = 0;
        while i < self.matches.len()
            invariant
                i <= self.matches.len(),
                match_views(out@) == self@.matches.subrange(0, i as int).filter(by_team(team_id)),
            decreases self.matches.len() - i,
        {
            proof {
                lemma_filter_step(self@.matches, i as int, by_team(team_id));
                assert(self@.matches[i as int] == self.matches@[i as int]@);
            }
            if self.matches[i].home_team.id == team_id || self.matches[i].away_team.id == team_id {
                let m = self.matches[i].copy();
                proof {
                    lemma_views_push(out@, m);
                    assert((by_team(team_id))(self@.matches[i as int]));
                }
                out.push(m);
            } else {
                assert(!(by_team(team_id))(self@.matches[i as int]));
            }
            i = i + 1;
        }
        assert(self@.matches.subrange(0, self.matches.len() as int) =~= self@.matches);
        if out.len() == 0 {
            Err(conflict("No matches found for this team"))
        } else {
            Ok(out)
        }
    }

    /// The matches of one sport, in order of identifier; none is an error.
    pub fn get_matches_by_sport_type(&self, sport_type: SportType) -> (r: Result<Vec<Match>, Error>)
        ensures
            is_conflict(r) <==> self@.matches.filter(by_sport(sport_type)).len() == 0,
            r is Ok <==> self@.matches.filter(by_sport(sport_type)).len() > 0,
            is_conflict(r) ==> error_text(r) == "No matches found for this sport type"@,
            r matches Ok(v) ==> match_views(v@) == self@.matches.filter(by_sport(sport_type)),
    {
        let mut out: Vec<Match> = Vec::new();
        let mut i: usize = 0;
        while i < self.matches.len()
            invariant
                i <= self.matches.len(),
                match_views(out@) == self@.matches.subrange(0, i as int).filter(by_sport(sport_type)),
            decreases self.matches.len() - i,
        {
            proof {
                lemma_filter_step(self@.matches, i as int, by_sport(sport_type));
                assert(self@.matches[i as int] == self.matches@[i as int]@);
            }
            if self.matches[i].sport_type == sport_type {
                let m = self.matches[i].copy();
                proof {
                    lemma_views_push(out@, m);
                    assert((by_sport(sport_type))(self@.matches[i as int]));
                }
                out.push(m);
            } else {
                assert(!(by_sport(sport_type))(self@.matches[i as int]));
            }
            i = i + 1;
        }
        assert(self@.matches.subrange(0, self.matches.len() as int) =~= self@.matches);
        if out.len() == 0 {
            Err(conflict("No matches found for this sport type"))
        } else {
            Ok(out)
        }
    }

    /// The matches scheduled on `date`, in order of identifier; none is an
    /// error.
    pub fn get_matches_by_date(&self, date: &String) -> (r: Result<Vec<Match>, Error>)
        ensures
            is_conflict(r) <==> self@.matches.filter(by_date(date@)).len() == 0,
            r is Ok <==> self@.matches.filter(by_date(date@)).len() > 0,
            is_conflict(r) ==> error_text(r) == "No matches found for this date"@,
            r matches Ok(v) ==> match_views(v@) == self@.matches.filter(by_date(date@)),
    {
        let mut out: Vec<Match> = Vec::new();
        let mut i: usize = 0;
        while i < self.matches.len()
            invariant
                i <= self.matches.len(),
                match_views(out@) == self@.matches.subrange(0, i as int).filter(by_date(date@)),
            decreases self.matches.len() - i,
        {
            proof {
                lemma_filter_step(self@.matches, i as int, by_date(date@));
                assert(self@.matches[i as int] == self.matches@[i as int]@);
            }
            if self.matches[i].scheduled_date == *date {
                let m = self.matches[i].copy();
                proof {
                    lemma_views_push(out@, m);
                    assert((by_date(date@))(self@.matches[i as int]));
                }
                out.push(m);
            } else {
                assert(!(by_date(date@))(self@.matches[i as int]));
            }
            i = i + 1;
        }
        assert(self@.matches.subrange(0, self.matches.len() as int) =~= self@.matches);
        if out.len() == 0 {
            Err(conflict("No matches found for this date"))
        } else {
            Ok(out)
        }
    }

    /// Registers a new user owned by `caller`.
    pub fn register_user(&mut self, payload: RegisterUserPayload, caller: String) -> (r: Result<User, Error>)
        requires
            old(self).wf(),
            registration_complete(payload) && valid_email(payload.email@) && !email_in(
                old(self)@.users,
                payload.email@,
            ) ==> old(self).can_allocate(),
        ensures
            final(self).wf(),
            is_invalid(r) <==> !registration_complete(payload) || !valid_email(payload.email@),
            is_conflict(r) <==> registration_complete(payload) && valid_email(payload.email@)
                && email_in(old(self)@.users, payload.email@),
            r is Ok <==> registration_complete(payload) && valid_email(payload.email@)
                && !email_in(old(self)@.users, payload.email@),
            is_conflict(r) ==> error_text(r) == "User with this email already exists"@,
            is_invalid(r) && registration_complete(payload) ==> error_text(r) == "Invalid email format"@,
            !registration_complete(payload) ==> error_text(r) == "Name, email, and address are required fields"@,
            r matches Ok(u) ==> u == registered_user(old(self)@.next_id, payload, caller)
                && final(self)@ == old(self)@.with_user(u),
            r is Err ==> final(self)@ == old(self)@,
    {
        if payload.name.as_str().is_empty() || payload.email.as_str().is_empty()
            || payload.address.as_str().is_empty() {
            return Err(invalid("Name, email, and address are required fields"));
        }
        if validate_email_format(payload.email.as_str()).is_err() {
            return Err(invalid("Invalid email format"));
        }
        if validate_email_uniqueness(&self.users, &payload.email).is_err() {
            return Err(conflict("User with this email already exists"));
        }
        let ghost old_view = self@;
        let id = generate_uuid(&mut self.ids);
        let user = User {
            id,
            owner: caller,
            name: payload.name,
            email: payload.email,
            address: payload.address,
            role: payload.role,
        };
        self.users.push(user.copy());
        assert(self@ =~= old_view.with_user(user));
        proof {
            lemma_user_ids_kept(old_view, self@);
        }
        Ok(user)
    }
}

} // verus!
