use vstd::prelude::*;

verus! {

/// Number of teams that fit in a ball's claim mask, one bit each.
pub const MAX_TEAMS: u8 = 8;

/// The claim bit of team number `team`.
pub open spec fn claim_bit(team: u8) -> u8
    recommends
        team < MAX_TEAMS,
{
    1u8 << team
}

/// A match was set up with more teams than a claim mask has bits.
#[derive(Clone, Copy, Debug, PartialEq, Eq, Structural)]
pub struct TooManyTeams {
    pub n_teams: u8,
}

/// A team of players, identified by a small number, under human or bot control.
#[derive(Clone, Copy, Debug, PartialEq, Eq, Structural)]
pub struct Team {
    team: u8,
    is_human: bool,
}

impl Team {
    /// The team's number.
    pub closed spec fn id(&self) -> u8 {
        self.team
    }

    /// Whether a human gives this team its orders.
    pub closed spec fn human(&self) -> bool {
        self.is_human
    }

    /// Whether the team has a bit of its own in a claim mask.
    pub open spec fn can_claim(&self) -> bool {
        self.id() < MAX_TEAMS
    }

    pub fn new_human(team: u8) -> (t: Self)
        ensures
            t.id() == team,
            t.human(),
    {
        Self { team, is_human: true }
    }

    pub fn new_bot(team: u8) -> (t: Self)
        ensures
            t.id() == team,
            !t.human(),
    {
        Self { team, is_human: false }
    }

    pub fn team(&self) -> (id: u8)
        ensures
            id == self.id(),
    {
        self.team
    }

    pub fn is_human(&self) -> (human: bool)
        ensures
            human == self.human(),
    {
        self.is_human
    }

    /// The mask with which this team claims a ball: its own bit and no other.
    pub fn claimant_group_mask(&self) -> (mask: u8)
        requires
            self.can_claim(),
        ensures
            mask == claim_bit(self.id()),
            mask != 0,
    {
        let team: u8 = self.team;
        assert(team < 8 ==> (1u8 << team) != 0) by (bit_vector);
        1u8 << team
    }
}

/// Checks, when a match is set up, that every team gets a claim bit of its own.
pub fn check_team_count(n_teams: u8) -> (checked: Result<(), TooManyTeams>)
    ensures
        checked is Ok <==> n_teams <= MAX_TEAMS,
        checked matches Err(e) ==> e.n_teams == n_teams,
{
    if n_teams <= MAX_TEAMS {
        Ok(())
    } else {
        Err(TooManyTeams { n_teams })
    }
}

/// Two different teams never share a claim bit, and no claim bit is empty.
pub proof fn claim_bits_are_exclusive(a: u8, b: u8)
    requires
        a < MAX_TEAMS,
        b < MAX_TEAMS,
        a != b,
    ensures
        claim_bit(a) != 0,
        claim_bit(a) & claim_bit(b) == 0,
{
    assert(a < 8 && b < 8 && a != b ==> (1u8 << a) != 0 && (1u8 << a) & (1u8 << b) == 0)
        by (bit_vector);
}

} // verus!
