use vstd::prelude::*;

verus! {

/// The score of every team, by the team's number.
#[derive(Debug)]
pub struct ScoreBoard {
    pub team_scores: Vec<u32>,
}

impl ScoreBoard {
    /// A board for `n_teams` teams that have not scored yet.
    pub fn new(n_teams: u8) -> (board: Self)
        ensures
            board.team_scores.len() == n_teams,
            forall|team: int| 0 <= team < n_teams ==> #[trigger] board.team_scores[team] == 0,
    {
        let mut team_scores: Vec<u32> = Vec::new();
        let mut team: u8 = 0;
        while team < n_teams
            invariant
                team <= n_teams,
                team_scores.len() == team,
                forall|t: int| 0 <= t < team ==> #[trigger] team_scores[t] == 0,
            decreases n_teams - team,
        {
            team_scores.push(0);
            team += 1;
        }
        ScoreBoard { team_scores }
    }
}

} // verus!
