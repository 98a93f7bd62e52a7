use vstd::prelude::*;

verus! {

/// The squad that a player or a leader token belongs to.
#[derive(Clone, Copy, Debug, PartialEq, Eq, Structural)]
pub struct Squad {
    pub squad: u8,
}

impl Squad {
    pub fn new(squad: u8) -> (s: Self)
        ensures
            s.squad == squad,
    {
        Self { squad }
    }
}

/// What the squad aggregation needs to know of one player in play.
#[derive(Clone, Copy, Debug, PartialEq, Eq, Structural)]
pub struct PlayerSample {
    pub squad: u8,
    pub holding_ball: bool,
    /// Whether the player stood within the squad's cluster, as measured by
    /// the cluster radius of the tick before.
    pub in_cluster: bool,
}

/// How many of `samples` are players of `squad`.
pub open spec fn population(samples: Seq<PlayerSample>, squad: int) -> nat
    decreases samples.len(),
{
    if samples.len() == 0 {
        0
    } else {
        population(samples.drop_last(), squad) + if samples.last().squad == squad {
            1nat
        } else {
            0nat
        }
    }
}

/// How many of `samples` are players of `squad` that hold a ball.
pub open spec fn ball_holders(samples: Seq<PlayerSample>, squad: int) -> nat
    decreases samples.len(),
{
    if samples.len() == 0 {
        0
    } else {
        ball_holders(samples.drop_last(), squad) + if samples.last().squad == squad
            && samples.last().holding_ball {
            1nat
        } else {
            0nat
        }
    }
}

/// How many of `samples` are players of `squad` that stand in its cluster.
pub open spec fn cluster_members(samples: Seq<PlayerSample>, squad: int) -> nat
    decreases samples.len(),
{
    if samples.len() == 0 {
        0
    } else {
        cluster_members(samples.drop_last(), squad) + if samples.last().squad == squad
            && samples.last().in_cluster {
            1nat
        } else {
            0nat
        }
    }
}

/// No count of a squad's players is greater than its population, and no
/// population is greater than the number of samples.
pub proof fn counts_are_bounded(samples: Seq<PlayerSample>, squad: int)
    ensures
        ball_holders(samples, squad) <= population(samples, squad),
        cluster_members(samples, squad) <= population(samples, squad),
        population(samples, squad) <= samples.len(),
    decreases samples.len(),
{
    if samples.len() > 0 {
        counts_are_bounded(samples.drop_last(), squad);
    }
}

/// A squad's numbers, counted anew in every tick.
#[derive(Clone, Copy, Debug, PartialEq, Eq, Structural)]
pub struct SquadState {
    pub num_players: u32,
    pub num_holding_balls: u32,
    pub num_players_in_cluster: u32,
}

/// `count` as a percentage of `population`, rounded down; of an empty
/// squad, zero.
pub open spec fn percent(count: u32, population: u32) -> int {
    100 * count / if population > 1 {
        population as int
    } else {
        1
    }
}

impl SquadState {
    /// The players that hold a ball, and those in the cluster, are among the
    /// squad's players.
    pub open spec fn wf(self) -> bool {
        &&& self.num_holding_balls <= self.num_players
        &&& self.num_players_in_cluster <= self.num_players
    }

    /// The numbers of `squad` among `samples`.
    pub open spec fn counted(samples: Seq<PlayerSample>, squad: int) -> SquadState {
        SquadState {
            num_players: population(samples, squad) as u32,
            num_holding_balls: ball_holders(samples, squad) as u32,
            num_players_in_cluster: cluster_members(samples, squad) as u32,
        }
    }

    /// A squad of `num_players` players before its first count.
    pub fn new(num_players: u32) -> (state: Self)
        ensures
            state == (SquadState { num_players, num_holding_balls: 0, num_players_in_cluster: 0 }),
            state.wf(),
    {
        SquadState { num_players, num_holding_balls: 0, num_players_in_cluster: 0 }
    }

    /// The share of the squad's players that hold a ball, in percent.
    pub fn ball_percent(&self) -> (pct: u32)
        requires
            self.num_holding_balls <= self.num_players,
        ensures
            pct == percent(self.num_holding_balls, self.num_players),
            pct <= 100,
    {
        percent_of(self.num_holding_balls, self.num_players)
    }

    /// The share of the squad's players that stand in its cluster, in
    /// percent.
    pub fn cluster_percent(&self) -> (pct: u32)
        requires
            self.num_players_in_cluster <= self.num_players,
        ensures
            pct == percent(self.num_players_in_cluster, self.num_players),
            pct <= 100,
    {
        percent_of(self.num_players_in_cluster, self.num_players)
    }
}

fn percent_of(count: u32, population: u32) -> (pct: u32)
    requires
        count <= population,
    ensures
        pct == percent(count, population),
        pct <= 100,
{
    let divisor: u64 = if population > 1 {
        population as u64
    } else {
        1
    };
    let scaled: u64 = 100 * (count as u64);
    let pct: u64 = scaled / divisor;
    assert(pct <= 100) by (nonlinear_arith)
        requires
            pct == scaled / divisor,
            scaled <= 100 * divisor,
            divisor > 0,
    ;
    pct as u32
}

/// The numbers of all squads, and the squad that the human has selected.
#[derive(Debug)]
pub struct SquadStates {
    pub selected: Option<u8>,
    pub squads: Vec<SquadState>,
}

impl SquadStates {
    /// The states of squads with the given numbers of players, before their
    /// first count; no squad is selected.
    pub fn new(squads: Vec<u32>) -> (states: Self)
        ensures
            states.selected is None,
            states.squads.len() == squads.len(),
            forall|s: int|
                0 <= s < squads.len() ==> #[trigger] states.squads[s] == (SquadState {
                    num_players: squads[s],
                    num_holding_balls: 0,
                    num_players_in_cluster: 0,
                }),
    {
        let mut states: Vec<SquadState> = Vec::new();
        let mut k: usize = 0;
        while k < squads.len()
            invariant
                k <= squads.len(),
                states.len() == k,
                forall|s: int|
                    0 <= s < k ==> #[trigger] states[s] == (SquadState {
                        num_players: squads[s],
                        num_holding_balls: 0,
                        num_players_in_cluster: 0,
                    }),
            decreases squads.len() - k,
        {
            states.push(SquadState::new(squads[k]));
            k += 1;
        }
        SquadStates { selected: None, squads: states }
    }

    /// Selects `squad`. Hands back the squad that was selected before, if
    /// it is another one: its highlight is to be taken away.
    pub fn select(&mut self, squad: u8) -> (outdated: Option<u8>)
        ensures
            final(self).selected == Some(squad),
            final(self).squads == old(self).squads,
            outdated == match old(self).selected {
                Some(before) if before != squad => Some(before),
                _ => None,
            },
    {
        let outdated = match self.selected {
            Some(before) if before != squad => Some(before),
            _ => None,
        };
        self.selected = Some(squad);
        outdated
    }

    /// Counts every squad's players anew from the players in play: how many
    /// there are, how many hold a ball, and how many stand in the cluster.
    /// Nothing of the earlier counts remains.
    pub fn update(&mut self, players: &Vec<PlayerSample>)
        requires
            players.len() <= u32::MAX,
            forall|i: int|
                0 <= i < players.len() ==> (#[trigger] players[i]).squad < old(self).squads.len(),
        ensures
            final(self).selected == old(self).selected,
            final(self).squads.len() == old(self).squads.len(),
            forall|s: int|
                0 <= s < final(self).squads.len() ==> #[trigger] final(self).squads[s]
                    == SquadState::counted(players@, s),
            forall|s: int| 0 <= s < final(self).squads.len() ==> (#[trigger] final(self).squads[s]).wf(),
    {
        let n = self.squads.len();
        let mut s: usize = 0;
        while s < n
            invariant
                s <= n,
                n == self.squads.len(),
                self.selected == old(self).selected,
                forall|t: int|
                    0 <= t < s ==> #[trigger] self.squads[t] == SquadState::counted(
                        Seq::<PlayerSample>::empty(),
                        t,
                    ),
            decreases n - s,
        {
            self.squads[s] = SquadState::new(0);
            s += 1;
        }
        let mut k: usize = 0;
        while k < players.len()
            invariant
                k <= players.len(),
                players.len() <= u32::MAX,
                n == self.squads.len(),
                n == old(self).squads.len(),
                self.selected == old(self).selected,
                forall|i: int| 0 <= i < players.len() ==> (#[trigger] players[i]).squad < n,
                forall|t: int|
                    0 <= t < n ==> #[trigger] self.squads[t] == SquadState::counted(
                        players@.take(k as int),
                        t,
                    ),
            decreases players.len() - k,
        {
            let player = players[k];
            let ghost before = players@.take(k as int);
            let ghost after = players@.take(k + 1);
            proof {
                assert(after.drop_last() =~= before);
                assert(after.last() == player);
                assert forall|t: int| 0 <= t < n implies population(after, t) <= k + 1 by {
                    counts_are_bounded(after, t);
                }
                assert forall|t: int| 0 <= t < n implies ball_holders(after, t) <= k + 1
                    && cluster_members(after, t) <= k + 1 by {
                    counts_are_bounded(after, t);
                }
            }
            let at = player.squad as usize;
            let mut state = self.squads[at];
            proof {
                counts_are_bounded(before, at as int);
                counts_are_bounded(after, at as int);
            }
            state.num_players = state.num_players + 1;
            if player.holding_ball {
                state.num_holding_balls = state.num_holding_balls + 1;
            }
            if player.in_cluster {
                state.num_players_in_cluster = state.num_players_in_cluster + 1;
            }
            self.squads[at] = state;
            k += 1;
        }
        proof {
            assert(players@.take(k as int) =~= players@);
            assert forall|t: int| 0 <= t < n implies (#[trigger] self.squads[t]).wf() by {
                counts_are_bounded(players@, t);
            }
        }
    }
}

} // verus!
