use vstd::prelude::*;

verus! {

/// One of several options to choose from. A score is a whole number that
/// orders the options as their worth does: the higher, the better, and zero
/// for an option that is worth nothing.
#[derive(Clone, Copy, Debug, PartialEq, Eq, Structural)]
pub struct Candidate {
    pub eligible: bool,
    pub score: u32,
}

impl Candidate {
    /// Whether the option can be chosen at all: it is eligible and worth
    /// something.
    pub open spec fn counts(self) -> bool {
        self.eligible && self.score > 0
    }
}

/// Whether option `i` is the one to choose: it counts, no option that counts
/// scores higher, and none before it scores as high.
pub open spec fn is_best(candidates: Seq<Candidate>, i: int) -> bool {
    &&& 0 <= i < candidates.len()
    &&& candidates[i].counts()
    &&& forall|j: int|
        0 <= j < candidates.len() && (#[trigger] candidates[j]).counts() ==> candidates[j].score
            <= candidates[i].score
    &&& forall|j: int|
        0 <= j < i && (#[trigger] candidates[j]).counts() ==> candidates[j].score
            < candidates[i].score
}

/// The option to choose, if any counts.
pub open spec fn best(candidates: Seq<Candidate>) -> Option<int> {
    if exists|i: int| is_best(candidates, i) {
        Some(choose|i: int| is_best(candidates, i))
    } else {
        None
    }
}

/// At most one option is the one to choose.
pub proof fn best_is_unique(candidates: Seq<Candidate>, i: int, j: int)
    requires
        is_best(candidates, i),
        is_best(candidates, j),
    ensures
        i == j,
{
    if i < j {
        assert(candidates[i].counts());
    } else if j < i {
        assert(candidates[j].counts());
    }
}

/// Whether `leader` is the choice among `candidates`: the place of the one
/// to choose, or none where no option counts.
pub open spec fn leads(candidates: Seq<Candidate>, leader: Option<int>) -> bool {
    match leader {
        Some(i) => is_best(candidates, i),
        None => forall|j: int| 0 <= j < candidates.len() ==> !(#[trigger] candidates[j]).counts(),
    }
}

/// The choice after one more option, `last`, has come behind options among
/// which `leader` was the choice: `last` takes over if it counts and scores
/// higher than the leader, or if there was none.
pub open spec fn leader_with(head: Seq<Candidate>, last: Candidate, leader: Option<int>) -> Option<
    int,
> {
    if last.counts() && (leader is None || last.score > head[leader->0].score) {
        Some(head.len() as int)
    } else {
        leader
    }
}

/// One more option changes the choice as `leader_with` says.
pub proof fn best_with_one_more(head: Seq<Candidate>, last: Candidate, leader: Option<int>)
    requires
        leads(head, leader),
    ensures
        leads(head.push(last), leader_with(head, last, leader)),
{
    let all = head.push(last);
    assert forall|j: int| 0 <= j < head.len() implies #[trigger] all[j] == head[j] by {}
    assert forall|j: int| 0 <= j < head.len() && (#[trigger] all[j]).counts() implies head[j].counts() by {}
}

/// A choice that `leads` is the one that `best` names.
pub proof fn leader_is_best(candidates: Seq<Candidate>, leader: Option<int>)
    requires
        leads(candidates, leader),
    ensures
        best(candidates) == leader,
{
    match leader {
        Some(i) => {
            best_is_unique(candidates, i, choose|j: int| is_best(candidates, j));
        },
        None => {
            assert forall|j: int| !is_best(candidates, j) by {
                if 0 <= j < candidates.len() {
                    assert(!candidates[j].counts());
                }
            }
        },
    }
}

/// Every list of options has a choice: where any option counts, the first of
/// those with the highest score, and none only where no option counts.
pub proof fn best_exists(candidates: Seq<Candidate>)
    ensures
        leads(candidates, best(candidates)),
    decreases candidates.len(),
{
    if candidates.len() == 0 {
        leader_is_best(candidates, None);
    } else {
        let head = candidates.drop_last();
        best_exists(head);
        best_with_one_more(head, candidates.last(), best(head));
        assert(head.push(candidates.last()) =~= candidates);
        leader_is_best(candidates, leader_with(head, candidates.last(), best(head)));
    }
}

/// Chooses among `candidates`: the first of those that count with the
/// highest score, or none where none counts.
pub fn choose_best(candidates: &Vec<Candidate>) -> (chosen: Option<usize>)
    ensures
        match chosen {
            Some(i) => best(candidates@) == Some(i as int),
            None => best(candidates@) is None,
        },
        chosen matches Some(i) ==> is_best(candidates@, i as int),
        chosen is None ==> forall|j: int|
            0 <= j < candidates.len() ==> !(#[trigger] candidates@[j]).counts(),
{
    let mut chosen: Option<usize> = None;
    let ghost mut leader: Option<int> = None;
    let mut top: u32 = 0;
    let mut k: usize = 0;
    while k < candidates.len()
        invariant
            k <= candidates.len(),
            leads(candidates@.take(k as int), leader),
            match chosen {
                Some(i) => leader == Some(i as int) && top == candidates@[i as int].score,
                None => leader is None && top == 0,
            },
        decreases candidates.len() - k,
    {
        let candidate = candidates[k];
        proof {
            let head = candidates@.take(k as int);
            best_with_one_more(head, candidate, leader);
            assert(head.push(candidate) =~= candidates@.take(k + 1));
            leader = leader_with(head, candidate, leader);
        }
        if candidate.eligible && candidate.score > top {
            chosen = Some(k);
            top = candidate.score;
        }
        k += 1;
    }
    proof {
        assert(candidates@.take(k as int) =~= candidates@);
        leader_is_best(candidates@, leader);
    }
    chosen
}

/// How a bot squad stands to an enemy squad, by the balls that each holds.
#[derive(Clone, Copy, Debug, PartialEq, Eq, Structural)]
pub enum ThreatBranch {
    /// The bot squad holds at least as many balls as the enemy, or the enemy
    /// holds none: the enemy can be attacked.
    Vulnerable,
    /// The enemy holds more balls: it is to be feared.
    Scary,
}

impl ThreatBranch {
    /// The ratio of own balls to enemy balls is at least one, or there is no
    /// ratio because the enemy holds no ball, exactly on the vulnerable side.
    pub open spec fn of(own_holding: u32, enemy_holding: u32) -> ThreatBranch {
        if enemy_holding == 0 || own_holding >= enemy_holding {
            ThreatBranch::Vulnerable
        } else {
            ThreatBranch::Scary
        }
    }

    pub fn classify(own_holding: u32, enemy_holding: u32) -> (branch: ThreatBranch)
        ensures
            branch == ThreatBranch::of(own_holding, enemy_holding),
    {
        if enemy_holding == 0 || own_holding >= enemy_holding {
            ThreatBranch::Vulnerable
        } else {
            ThreatBranch::Scary
        }
    }
}

/// What a bot squad knows of another squad when it looks for threats.
#[derive(Clone, Copy, Debug, PartialEq, Eq, Structural)]
pub struct SquadReport {
    pub squad: u8,
    pub team: u8,
    pub num_players: u32,
    pub num_holding_balls: u32,
    /// How vulnerable the squad is where it counts as vulnerable, how scary
    /// where it counts as scary.
    pub score: u32,
}

impl SquadReport {
    /// Whether the squad is an enemy that is still on the field.
    pub open spec fn opposes(self, own_team: u8) -> bool {
        self.team != own_team && self.num_players > 0
    }

    /// The report as an option for a squad of `own_team` that holds
    /// `own_holding` balls and looks for an enemy on the side `branch`.
    pub open spec fn candidate(self, own_team: u8, own_holding: u32, branch: ThreatBranch) -> Candidate {
        Candidate {
            eligible: self.opposes(own_team) && ThreatBranch::of(
                own_holding,
                self.num_holding_balls,
            ) == branch,
            score: self.score,
        }
    }
}

/// The reports as options, in their order.
pub open spec fn threat_candidates(
    reports: Seq<SquadReport>,
    own_team: u8,
    own_holding: u32,
    branch: ThreatBranch,
) -> Seq<Candidate> {
    Seq::new(reports.len(), |i: int| reports[i].candidate(own_team, own_holding, branch))
}

/// The squad of the report at place `at`, if there is one.
pub open spec fn squad_at(reports: Seq<SquadReport>, at: Option<int>) -> Option<u8> {
    match at {
        Some(i) => Some(reports[i].squad),
        None => None,
    }
}

/// The enemies that matter most to a bot squad.
#[derive(Clone, Copy, Debug, PartialEq, Eq, Structural)]
pub struct ThreatLevels {
    /// The most threatening squad.
    pub scary: Option<u8>,
    /// The squad most open to attack.
    pub vulnerable: Option<u8>,
}

impl ThreatLevels {
    /// Looks through the reports on all squads for the scariest enemy and
    /// for the most vulnerable one. Squads of the own team and squads without
    /// players are passed over. Of several that score the same the first
    /// stands.
    pub fn assess(own_team: u8, own_holding: u32, reports: &Vec<SquadReport>) -> (levels: Self)
        ensures
            levels.scary == squad_at(
                reports@,
                best(threat_candidates(reports@, own_team, own_holding, ThreatBranch::Scary)),
            ),
            levels.vulnerable == squad_at(
                reports@,
                best(threat_candidates(reports@, own_team, own_holding, ThreatBranch::Vulnerable)),
            ),
    {
        let scary = choose_best(
            &collect_candidates(reports, own_team, own_holding, ThreatBranch::Scary),
        );
        let vulnerable = choose_best(
            &collect_candidates(reports, own_team, own_holding, ThreatBranch::Vulnerable),
        );
        ThreatLevels {
            scary: match scary {
                Some(i) => Some(reports[i].squad),
                None => None,
            },
            vulnerable: match vulnerable {
                Some(i) => Some(reports[i].squad),
                None => None,
            },
        }
    }
}

fn collect_candidates(
    reports: &Vec<SquadReport>,
    own_team: u8,
    own_holding: u32,
    branch: ThreatBranch,
) -> (candidates: Vec<Candidate>)
    ensures
        candidates@ == threat_candidates(reports@, own_team, own_holding, branch),
{
    let mut candidates: Vec<Candidate> = Vec::new();
    let mut k: usize = 0;
    while k < reports.len()
        invariant
            k <= reports.len(),
            candidates.len() == k,
            forall|j: int|
                0 <= j < k ==> #[trigger] candidates@[j] == reports@[j].candidate(
                    own_team,
                    own_holding,
                    branch,
                ),
        decreases reports.len() - k,
    {
        let report = reports[k];
        let on_branch = ThreatBranch::classify(own_holding, report.num_holding_balls) == branch;
        candidates.push(
            Candidate {
                eligible: report.team != own_team && report.num_players > 0 && on_branch,
                score: report.score,
            },
        );
        k += 1;
    }
    assert(candidates@ =~= threat_candidates(reports@, own_team, own_holding, branch));
    candidates
}

/// The squad that is tracked on a side is an enemy on the field that stands
/// on that side and is worth something: a scary one holds more balls than the
/// own squad, a vulnerable one holds none or no more than the own squad. A
/// side is left untracked only where no such enemy stands on it; an enemy
/// with a score of zero is never tracked.
pub proof fn tracked_squads_stand_on_their_side(
    reports: Seq<SquadReport>,
    own_team: u8,
    own_holding: u32,
    branch: ThreatBranch,
)
    ensures
        match best(threat_candidates(reports, own_team, own_holding, branch)) {
            Some(i) => {
                &&& 0 <= i < reports.len()
                &&& reports[i].opposes(own_team)
                &&& ThreatBranch::of(own_holding, reports[i].num_holding_balls) == branch
                &&& reports[i].score > 0
                &&& branch is Scary ==> reports[i].num_holding_balls > own_holding
                &&& branch is Vulnerable ==> reports[i].num_holding_balls == 0 || own_holding
                    >= reports[i].num_holding_balls
            },
            None => forall|j: int|
                0 <= j < reports.len() && (#[trigger] reports[j]).opposes(own_team)
                    && ThreatBranch::of(own_holding, reports[j].num_holding_balls) == branch
                    ==> reports[j].score == 0,
        },
{
    let candidates = threat_candidates(reports, own_team, own_holding, branch);
    best_exists(candidates);
    if best(candidates) is None {
        assert forall|j: int|
            0 <= j < reports.len() && (#[trigger] reports[j]).opposes(own_team) && ThreatBranch::of(
                own_holding,
                reports[j].num_holding_balls,
            ) == branch implies reports[j].score == 0 by {
            assert(!candidates[j].counts());
        }
    }
}

/// Two squads that hold the same number of balls are vulnerable to each
/// other, never scary: neither is ever tracked as the other's threat.
pub proof fn equal_squads_are_never_scary(reports: Seq<SquadReport>, own_team: u8, own_holding: u32)
    ensures
        best(threat_candidates(reports, own_team, own_holding, ThreatBranch::Scary)) matches Some(i)
            ==> reports[i].num_holding_balls != own_holding,
{
    tracked_squads_stand_on_their_side(reports, own_team, own_holding, ThreatBranch::Scary);
}

/// Two squads that hold the same number of balls are vulnerable to each
/// other, never scary.
pub proof fn equal_ball_counts_are_vulnerable(holding: u32)
    ensures
        ThreatBranch::of(holding, holding) is Vulnerable,
{
}

/// What a look along one direction of retreat has found.
#[derive(Clone, Copy, Debug, PartialEq, Eq, Structural)]
pub struct RetreatProbe {
    /// The way leads through the enemy's cluster.
    pub meets_enemy: bool,
    /// The way ends at the boundary of the field.
    pub reaches_boundary: bool,
    /// The squad's cluster fits between it and the boundary.
    pub has_room: bool,
    /// The end of the way is at a safe distance from the enemy.
    pub reaches_safety: bool,
    /// How far from the enemy the way ends, as a score.
    pub end_distance: u32,
}

impl RetreatProbe {
    /// A way can be taken if it avoids the enemy, ends at the boundary with
    /// room for the cluster, and leads to safety.
    pub open spec fn candidate(self) -> Candidate {
        Candidate {
            eligible: !self.meets_enemy && self.reaches_boundary && self.has_room
                && self.reaches_safety,
            score: self.end_distance,
        }
    }
}

/// The ways of retreat as options, in their order.
pub open spec fn retreat_candidates(probes: Seq<RetreatProbe>) -> Seq<Candidate> {
    Seq::new(probes.len(), |i: int| probes[i].candidate())
}

/// The number of directions in which a squad looks for a retreat.
pub const RETREAT_DIRECTIONS: usize = 8;

/// The signs of the two ground coordinates of each direction of retreat, in
/// the order in which a squad tries them.
pub open spec fn retreat_direction_spec(i: int) -> (i8, i8) {
    if i == 0 {
        (-1i8, -1i8)
    } else if i == 1 {
        (-1i8, 0i8)
    } else if i == 2 {
        (-1i8, 1i8)
    } else if i == 3 {
        (0i8, -1i8)
    } else if i == 4 {
        (0i8, 1i8)
    } else if i == 5 {
        (1i8, -1i8)
    } else if i == 6 {
        (1i8, 0i8)
    } else {
        (1i8, 1i8)
    }
}

/// The direction of retreat number `i`: the four along the axes and the
/// four diagonals.
pub fn retreat_direction(i: usize) -> (signs: (i8, i8))
    requires
        i < RETREAT_DIRECTIONS,
    ensures
        signs == retreat_direction_spec(i as int),
{
    match i {
        0 => (-1, -1),
        1 => (-1, 0),
        2 => (-1, 1),
        3 => (0, -1),
        4 => (0, 1),
        5 => (1, -1),
        6 => (1, 0),
        _ => (1, 1),
    }
}

/// Chooses the way on which a squad runs from an enemy: of the ways that can
/// be taken, the one that ends farthest from the enemy, and of several such
/// the first. Where no way can be taken the squad stays.
pub fn run_from_enemy(probes: &Vec<RetreatProbe>) -> (way: Option<usize>)
    ensures
        match way {
            Some(i) => best(retreat_candidates(probes@)) == Some(i as int),
            None => best(retreat_candidates(probes@)) is None,
        },
        way matches Some(i) ==> i < probes.len(),
{
    let mut candidates: Vec<Candidate> = Vec::new();
    let mut k: usize = 0;
    while k < probes.len()
        invariant
            k <= probes.len(),
            candidates.len() == k,
            forall|j: int| 0 <= j < k ==> #[trigger] candidates@[j] == probes@[j].candidate(),
        decreases probes.len() - k,
    {
        let probe = probes[k];
        candidates.push(
            Candidate {
                eligible: !probe.meets_enemy && probe.reaches_boundary && probe.has_room
                    && probe.reaches_safety,
                score: probe.end_distance,
            },
        );
        k += 1;
    }
    assert(candidates@ =~= retreat_candidates(probes@));
    choose_best(&candidates)
}

/// What a bot squad's leader is told to do.
#[derive(Clone, Copy, Debug, PartialEq, Eq, Structural)]
pub enum BotDirective {
    /// The squad has no players left and the match brings squads back.
    Respawn,
    /// The squad has no players left and stays away.
    Skip,
    /// Run from this squad.
    Flee { from: u8 },
    /// Close in on this squad, up to throwing range.
    Attack { target: u8 },
    /// Stay.
    Hold,
}

impl BotDirective {
    /// A squad without players is brought back in a survival match and
    /// passed over in any other. A squad runs from the scariest enemy if
    /// that one is within the safety distance. If it need not run, it
    /// attacks the most vulnerable enemy. If there is none, it holds.
    pub open spec fn of(
        num_players: u32,
        survival: bool,
        threats: ThreatLevels,
        threat_in_reach: bool,
    ) -> BotDirective {
        if num_players == 0 {
            if survival {
                BotDirective::Respawn
            } else {
                BotDirective::Skip
            }
        } else if threats.scary is Some && threat_in_reach {
            BotDirective::Flee { from: threats.scary->0 }
        } else if threats.vulnerable is Some {
            BotDirective::Attack { target: threats.vulnerable->0 }
        } else {
            BotDirective::Hold
        }
    }
}

/// Decides what the leader of a bot squad with `num_players` players does,
/// given the enemies that matter and whether the scariest of them is within
/// the safety distance.
pub fn control_bot_team(
    num_players: u32,
    survival: bool,
    threats: ThreatLevels,
    threat_in_reach: bool,
) -> (directive: BotDirective)
    ensures
        directive == BotDirective::of(num_players, survival, threats, threat_in_reach),
{
    if num_players == 0 {
        if survival {
            BotDirective::Respawn
        } else {
            BotDirective::Skip
        }
    } else {
        match (threats.scary, threats.vulnerable) {
            (Some(from), _) if threat_in_reach => BotDirective::Flee { from },
            (_, Some(target)) => BotDirective::Attack { target },
            _ => BotDirective::Hold,
        }
    }
}

} // verus!
