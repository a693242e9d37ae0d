use vstd::prelude::*;

verus! {

/// What a registered user may do in the league.
#[derive(Clone, Copy, PartialEq, Eq, Structural, Hash, Debug)]
pub enum UserRole {
    Player,
    Coach,
    Administrator,
    LeagueOfficial,
}

/// A registered user. `owner` is the textual form of the identity that
/// registered or last updated the record.
#[derive(Clone, Debug)]
pub struct User {
    pub id: u64,
    pub owner: String,
    pub name: String,
    pub email: String,
    pub address: String,
    pub role: UserRole,
}

#[derive(Clone, Copy, PartialEq, Eq, Structural, Hash, Debug)]
pub enum SportType {
    Football,
    Basketball,
    Volleyball,
    Tennis,
    Cricket,
    Rugby,
    Hockey,
    Golf,
    Badminton,
    TableTennis,
}

#[derive(Clone, Debug)]
pub struct Team {
    pub id: u64,
    pub name: String,
    pub coaches: Vec<u64>,
    pub sport_type: SportType,
    pub members: Vec<u64>,
}

pub ghost struct TeamView {
    pub id: u64,
    pub name: Seq<char>,
    pub coaches: Seq<u64>,
    pub sport_type: SportType,
    pub members: Seq<u64>,
}

impl View for Team {
    type V = TeamView;

    open spec fn view(&self) -> TeamView {
        TeamView {
            id: self.id,
            name: self.name@,
            coaches: self.coaches@,
            sport_type: self.sport_type,
            members: self.members@,
        }
    }
}

#[derive(Clone, Debug)]
pub struct MatchResult {
    pub winner_team_id: u64,
    pub score_team_a: u32,
    pub score_team_b: u32,
    pub notes: String,
}

/// A scheduled match. The two teams are copies taken when the match was
/// scheduled; later changes to the teams do not reach them.
#[derive(Clone, Debug)]
pub struct Match {
    pub id: u64,
    pub home_team: Team,
    pub away_team: Team,
    pub sport_type: SportType,
    pub scheduled_date: String,
    pub result: Option<MatchResult>,
}

pub ghost struct MatchView {
    pub id: u64,
    pub home_team: TeamView,
    pub away_team: TeamView,
    pub sport_type: SportType,
    pub scheduled_date: Seq<char>,
    pub result: Option<MatchResult>,
}

impl View for Match {
    type V = MatchView;

    open spec fn view(&self) -> MatchView {
        MatchView {
            id: self.id,
            home_team: self.home_team@,
            away_team: self.away_team@,
            sport_type: self.sport_type,
            scheduled_date: self.scheduled_date@,
            result: self.result,
        }
    }
}

#[derive(Clone, Copy, PartialEq, Eq, Structural, Hash, Debug)]
pub enum TournamentStructure {
    RoundRobin,
    Knockout,
}

#[derive(Clone, Debug)]
pub struct Tournament {
    pub id: u64,
    pub name: String,
    pub structure: TournamentStructure,
    pub teams: Vec<String>,
    pub sport_type: SportType,
}

/// A league. `created_by` is the textual form of the creating identity.
#[derive(Clone, Debug)]
pub struct League {
    pub id: String,
    pub name: String,
    pub tournaments: Vec<Tournament>,
    pub sport_type: SportType,
    pub created_by: String,
}

#[derive(Clone, Debug)]
pub struct RegisterUserPayload {
    pub name: String,
    pub email: String,
    pub address: String,
    pub role: UserRole,
}

#[derive(Clone, Debug)]
pub struct UpdateUserPayload {
    pub id: u64,
    pub name: String,
    pub email: String,
    pub address: String,
    pub role: UserRole,
}

#[derive(Clone, Debug)]
pub struct CreateTeamPayload {
    pub name: String,
    pub sport_type: SportType,
}

#[derive(Clone, Debug)]
pub struct AddMemberPayload {
    pub team_id: u64,
    pub member_id: u64,
}

#[derive(Clone, Debug)]
pub struct AssignCoachPayload {
    pub team_id: u64,
    pub coach_id: u64,
}

#[derive(Clone, Debug)]
pub struct ScheduleMatchPayload {
    pub home_team_id: u64,
    pub away_team_id: u64,
    pub sport_type: SportType,
    pub scheduled_date: String,
}

#[derive(Clone, Debug)]
pub struct MatchResultPayload {
    pub match_id: u64,
    pub result: MatchResult,
}

#[derive(Clone, Debug)]
pub struct CreateTournamentPayload {
    pub name: String,
    pub structure: TournamentStructure,
    pub team_ids: Vec<String>,
    pub sport_type: SportType,
}

#[derive(Clone, Debug)]
pub struct CreateLeaguePayload {
    pub name: String,
    pub sport_type: SportType,
}

impl Default for UserRole {
    fn default() -> (r: UserRole)
        ensures
            r == UserRole::Player,
    {
        UserRole::Player
    }
}

impl Default for SportType {
    fn default() -> (r: SportType)
        ensures
            r == SportType::Football,
    {
        SportType::Football
    }
}

impl Default for TournamentStructure {
    fn default() -> (r: TournamentStructure)
        ensures
            r == TournamentStructure::RoundRobin,
    {
        TournamentStructure::RoundRobin
    }
}

/// Whether `user` holds `role`.
pub fn has_role(user: &User, role: UserRole) -> (r: bool)
    ensures
        r == (user.role == role),
{
    user.role == role
}

impl User {
    /// A field-by-field copy.
    pub fn copy(&self) -> (r: User)
        ensures
            r == *self,
    {
        User {
            id: self.id,
            owner: self.owner.clone(),
            name: self.name.clone(),
            email: self.email.clone(),
            address: self.address.clone(),
            role: self.role,
        }
    }
}

pub fn copy_ids(v: &Vec<u64>) -> (r: Vec<u64>)
    ensures
        r@ == v@,
{
    let mut r: Vec<u64> = Vec::new();
    let mut i: usize = 0;
    while i < v.len()
        invariant
            i <= v.len(),
            r@ == v@.subrange(0, i as int),
        decreases v.len() - i,
    {
        r.push(v[i]);
        i = i + 1;
    }
    assert(v@.subrange(0, v.len() as int) =~= v@);
    r
}

impl Team {
    /// A copy with the same view.
    pub fn copy(&self) -> (r: Team)
        ensures
            r@ == self@,
    {
        Team {
            id: self.id,
            name: self.name.clone(),
            coaches: copy_ids(&self.coaches),
            sport_type: self.sport_type,
            members: copy_ids(&self.members),
        }
    }
}

impl MatchResult {
    /// A field-by-field copy.
    pub fn copy(&self) -> (r: MatchResult)
        ensures
            r == *self,
    {
        MatchResult {
            winner_team_id: self.winner_team_id,
            score_team_a: self.score_team_a,
            score_team_b: self.score_team_b,
            notes: self.notes.clone(),
        }
    }
}

impl Match {
    /// A copy with the same view.
    pub fn copy(&self) -> (r: Match)
        ensures
            r@ == self@,
    {
        let result = match &self.result {
            Some(res) => Some(res.copy()),
            None => None,
        };
        Match {
            id: self.id,
            home_team: self.home_team.copy(),
            away_team: self.away_team.copy(),
            sport_type: self.sport_type,
            scheduled_date: self.scheduled_date.clone(),
            result,
        }
    }
}

} // verus!
