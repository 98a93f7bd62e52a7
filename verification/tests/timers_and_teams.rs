use megadodge_mayhem::parameters::{DESPAWN_SECONDS, THROW_COOLDOWN_MILLIS};
use megadodge_mayhem::player::{DespawnTimer, ThrowCooldown};
use megadodge_mayhem::team::{check_team_count, Team, TooManyTeams, MAX_TEAMS};
use megadodge_mayhem::timer::Timer;

#[test]
fn timer_counts_up_to_its_duration() {
    let mut timer = Timer::new(100);
    assert!(!timer.finished());
    timer.tick(40);
    assert_eq!(timer.elapsed, 40);
    assert!(!timer.finished());
    timer.tick(59);
    assert_eq!(timer.elapsed, 99);
    assert!(!timer.finished());
    timer.tick(1);
    assert_eq!(timer.elapsed, 100);
    assert!(timer.finished());
}

#[test]
fn timer_stops_at_its_duration() {
    let mut timer = Timer::new(100);
    timer.tick(250);
    assert_eq!(timer.elapsed, 100);
    timer.tick(u64::MAX);
    assert_eq!(timer.elapsed, 100);
    assert_eq!(timer.duration, 100);
}

#[test]
fn timer_tick_cannot_overflow() {
    let mut timer = Timer::new(u64::MAX);
    timer.tick(u64::MAX - 1);
    assert!(!timer.finished());
    timer.tick(u64::MAX);
    assert!(timer.finished());
    assert_eq!(timer.elapsed, u64::MAX);
}

#[test]
fn timer_reset_starts_over() {
    let mut timer = Timer::new(10);
    timer.tick(10);
    assert!(timer.finished());
    timer.reset();
    assert_eq!(timer, Timer::new(10));
    assert!(!timer.finished());
}

#[test]
fn timer_of_no_duration_is_finished() {
    assert!(Timer::new(0).finished());
}

#[test]
fn timer_units_convert_to_nanoseconds() {
    assert_eq!(Timer::from_millis(3).duration, 3_000_000);
    assert_eq!(Timer::from_secs(3).duration, 3_000_000_000);
    assert_eq!(Timer::from_millis(u64::MAX).duration, u64::MAX);
    assert_eq!(Timer::from_secs(18_446_744_074).duration, u64::MAX);
    assert_eq!(Timer::from_secs(18_446_744_073).duration, 18_446_744_073_000_000_000);
}

#[test]
fn throw_cooldown_lasts_two_seconds() {
    let cooldown = ThrowCooldown::new();
    assert_eq!(THROW_COOLDOWN_MILLIS, 2000);
    assert_eq!(cooldown.timer.duration, 2_000_000_000);
    assert_eq!(cooldown.timer.elapsed, 0);
}

#[test]
fn despawn_timer_lasts_five_seconds() {
    let timer = DespawnTimer::new();
    assert_eq!(DESPAWN_SECONDS, 5);
    assert_eq!(timer.timer.duration, 5_000_000_000);
    assert_eq!(timer.timer.elapsed, 0);
}

#[test]
fn teams_know_who_leads_them() {
    let human = Team::new_human(0);
    let bot = Team::new_bot(1);
    assert_eq!(human.team(), 0);
    assert!(human.is_human());
    assert_eq!(bot.team(), 1);
    assert!(!bot.is_human());
}

#[test]
fn every_team_has_a_claim_bit_of_its_own() {
    let mut seen: u8 = 0;
    for id in 0..MAX_TEAMS {
        let mask = Team::new_bot(id).claimant_group_mask();
        assert_eq!(mask, 1u8 << id);
        assert_eq!(mask.count_ones(), 1);
        assert_eq!(seen & mask, 0);
        seen |= mask;
    }
    assert_eq!(seen, u8::MAX);
}

#[test]
fn eight_teams_fit_a_claim_mask() {
    assert_eq!(check_team_count(0), Ok(()));
    assert_eq!(check_team_count(2), Ok(()));
    assert_eq!(check_team_count(8), Ok(()));
}

#[test]
fn ninth_team_is_rejected_at_setup() {
    assert_eq!(check_team_count(9), Err(TooManyTeams { n_teams: 9 }));
    assert_eq!(check_team_count(255), Err(TooManyTeams { n_teams: 255 }));
}

#[test]
fn timer_that_overran_is_brought_back() {
    let mut timer = Timer { duration: 5, elapsed: 9 };
    assert!(timer.finished());
    timer.tick(1);
    assert_eq!(timer, Timer { duration: 5, elapsed: 5 });
}
