use raid_planner::domain::{Attack, LocalizedString};
use raid_planner::fights::{assault, experiments, kazzara};
use raid_planner::fights::timeline::{into_timeline, seconds_to_ms, TimerBounds};
use raid_planner::lookup::Lookup;

fn times(l: &Lookup<Attack>) -> Vec<i128> {
    l.items().iter().map(|a| a.static_timer()).collect()
}

fn names(l: &Lookup<Attack>) -> Vec<String> {
    l.items().iter().map(|a| a.name.clone()).collect()
}

fn ordered(t: &[i128]) -> bool {
    t.windows(2).all(|w| w[0] <= w[1])
}

fn name(s: &str) -> LocalizedString {
    LocalizedString { en_us: s.to_string(), local: s.to_string() }
}

#[test]
fn kazzara_with_default_parameters() {
    let f = kazzara::mythic(2688, name("Kazzara, the Hellforged"));
    assert_eq!(f.encounter_id, 2688);
    assert_eq!(f.image_path, "boss/kazzara.png");
    assert_eq!(f.image_offset, 40);
    let t = times(&f.attacks);
    assert_eq!(t.len(), 15);
    assert!(ordered(&t));
    assert_eq!(
        t,
        vec![3000, 17000, 51000, 83000, 94000, 123000, 138000, 172000, 183000, 216000, 250000, 284000, 291000, 327000, 364000]
    );
    let n = names(&f.attacks);
    assert_eq!(n[0], "On Pull");
    assert_eq!(n[3], "80% HP AoE");
    assert_eq!(n[5], "60% HP AoE");
    assert_eq!(n[8], "40% HP AoE");
    assert_eq!(n[1], "Knock AoE");
}

#[test]
fn kazzara_follows_its_parameters() {
    let mut p = kazzara::KazzaraProps::new();
    assert_eq!((p.eighty_percent_timer, p.sixty_percent_timer, p.forty_percent_timer), (80, 120, 180));
    p.eighty_percent_timer = 10;
    let a = p.attacks();
    let t = times(&a);
    assert!(ordered(&t));
    assert_eq!(t[1], 13000);
    assert_eq!(names(&a)[1], "80% HP AoE");
}

#[test]
fn kazzara_timer_bounds() {
    let p = kazzara::KazzaraProps::new();
    let b = p.bounds();
    assert!(b[0] == TimerBounds { min: None, max: Some(120) });
    assert!(b[1] == TimerBounds { min: Some(80), max: Some(180) });
    assert!(b[2] == TimerBounds { min: Some(120), max: None });
}

#[test]
fn assault_with_default_parameters() {
    let p = assault::AssaultProps::new();
    assert_eq!((p.shield_durations, p.phase_2_start_timer), (15, 277));
    let f = assault::mythic(2682, name("Assault of the Zaqali"));
    assert_eq!(f.image_path, "boss/assault.png");
    assert_eq!(f.image_offset, 35);
    let t = times(&f.attacks);
    assert!(!t.is_empty());
    assert!(ordered(&t));
    assert_eq!(names(&f.attacks)[0], "On Pull");
}

#[test]
fn experiments_with_default_parameters() {
    let p = experiments::ExperimentsProps::new();
    assert_eq!(
        (p.neldris_death_timer, p.thadrion_active_timer, p.thadrion_death_timer, p.rionthus_active_timer),
        (120, 68, 200, 135)
    );
    let b = p.bounds();
    assert!(b[1] == TimerBounds { min: None, max: Some(200) });
    assert!(b[2] == TimerBounds { min: Some(68), max: None });
    assert!(b[3] == TimerBounds { min: Some(68), max: None });
    let f = experiments::mythic(2693, name("The Forgotten Experiments"));
    assert_eq!(f.image_path, "boss/experiments.png");
    assert_eq!(f.image_offset, 20);
    let t = times(&f.attacks);
    assert!(!t.is_empty());
    assert!(ordered(&t));
}

#[test]
fn seconds_in_milliseconds() {
    assert_eq!(seconds_to_ms(0), 0);
    assert_eq!(seconds_to_ms(277), 277000);
    assert_eq!(seconds_to_ms(5999), 5999000);
}

#[test]
fn sorting_by_time_is_stable() {
    let f = kazzara::mythic(1, name("k"));
    let mut v: Vec<Attack> = f.attacks.items().iter().rev().map(|a| a.duplicate()).collect();
    let mut tie = v[0].duplicate();
    tie.uuid = 7;
    tie.name = "Tie".to_string();
    v.push(tie);
    let timeline = into_timeline(v);
    let sorted = timeline.items();
    let t: Vec<i128> = sorted.iter().map(|a| a.static_timer()).collect();
    assert!(ordered(&t));
    assert_eq!(sorted.len(), 16);
    let last_two: Vec<&str> = sorted[14..].iter().map(|a| a.name.as_str()).collect();
    assert_eq!(last_two, vec!["Knock AoE", "Tie"]);
}

fn uuids(l: &Lookup<Attack>) -> std::collections::BTreeSet<u128> {
    l.items().iter().map(|a| a.uuid).collect()
}

#[test]
fn a_later_neldris_death_only_adds_neldris_attacks() {
    let mut early = experiments::ExperimentsProps::new();
    early.neldris_death_timer = 30;
    let mut late = experiments::ExperimentsProps::new();
    late.neldris_death_timer = 150;
    let a = early.attacks();
    let b = late.attacks();
    let (ua, ub) = (uuids(&a), uuids(&b));
    assert!(ua.is_subset(&ub));
    let neldris = |l: &Lookup<Attack>| -> std::collections::BTreeSet<u128> {
        l.items().iter().filter(|x| x.name.starts_with("Neldris") || x.name == "On Pull").map(|x| x.uuid).collect()
    };
    let added: Vec<u128> = ub.difference(&ua).copied().collect();
    assert!(!added.is_empty());
    assert!(added.iter().all(|u| neldris(&b).contains(u)));
}
