use vstd::prelude::*;

verus! {

/// The number of teams in a match.
pub const TEAMS: u8 = 2;

/// How the next match is made up.
#[derive(Clone, Copy, Debug, PartialEq, Eq, Structural)]
pub struct NextGameConfig {
    pub squads_per_team: u8,
    pub players_per_squad: u32,
    pub n_balls: u32,
}

impl Default for NextGameConfig {
    fn default() -> (config: Self)
        ensures
            config == (NextGameConfig { squads_per_team: 2, players_per_squad: 100, n_balls: 100 }),
    {
        NextGameConfig { squads_per_team: 2, players_per_squad: 100, n_balls: 100 }
    }
}

impl NextGameConfig {
    /// Every squad of both teams has a number of its own below 256.
    pub open spec fn fits(self) -> bool {
        TEAMS * self.squads_per_team <= u8::MAX
    }

    /// The team of squad number `squad`: the squads of the first team come
    /// first, those of the second team after them.
    pub open spec fn team_of(self, squad: int) -> u8 {
        if squad < self.squads_per_team {
            0
        } else {
            1
        }
    }

    /// Says whether the squads can be numbered.
    pub fn check(&self) -> (fits: bool)
        ensures
            fits == self.fits(),
    {
        self.squads_per_team <= u8::MAX / TEAMS
    }

    /// The team of every squad, by the squad's number.
    pub fn squad_teams(&self) -> (teams: Vec<u8>)
        requires
            self.fits(),
        ensures
            teams.len() == TEAMS * self.squads_per_team,
            forall|squad: int| 0 <= squad < teams.len() ==> #[trigger] teams[squad] == self.team_of(squad),
    {
        let n: usize = (TEAMS * self.squads_per_team) as usize;
        let mut teams: Vec<u8> = Vec::new();
        let mut squad: usize = 0;
        while squad < n
            invariant
                squad <= n,
                teams.len() == squad,
                forall|s: int| 0 <= s < squad ==> #[trigger] teams[s] == self.team_of(s),
            decreases n - squad,
        {
            teams.push(
                if squad < self.squads_per_team as usize {
                    0
                } else {
                    1
                },
            );
            squad += 1;
        }
        teams
    }

    /// The number of players of every squad before the first count, by the
    /// squad's number.
    pub fn squad_sizes(&self) -> (sizes: Vec<u32>)
        requires
            self.fits(),
        ensures
            sizes.len() == TEAMS * self.squads_per_team,
            forall|squad: int| 0 <= squad < sizes.len() ==> #[trigger] sizes[squad] == self.players_per_squad,
    {
        let n: usize = (TEAMS * self.squads_per_team) as usize;
        let mut sizes: Vec<u32> = Vec::new();
        let mut squad: usize = 0;
        while squad < n
            invariant
                squad <= n,
                sizes.len() == squad,
                forall|s: int| 0 <= s < squad ==> #[trigger] sizes[s] == self.players_per_squad,
            decreases n - squad,
        {
            sizes.push(self.players_per_squad);
            squad += 1;
        }
        sizes
    }
}

} // verus!
