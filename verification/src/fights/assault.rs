//! The Amalgamation Chamber's assault (mythic): shields, debuffs and pushbacks until
//! the second phase starts, then AoEs and meteor soaks.
use vstd::prelude::*;
use crate::domain::{Attack, AttackView, AttackTimer, AttackType, CleuEvent, CleuEventType, ms, mm_ss};
use crate::lookup::Lookup;
use crate::fights::timeline::{view_time, lemma_collect_views_keeps, lemma_sort_ordered, lemma_sort_members, lemma_filter_members, views, on_pull, on_pull_view, make_attack, into_timeline, collect_views, sort_by_time, view_time_fn, keep_within, window_view_pred, POWER_ONE, MAX_FIGHT_TIME};
use crate::text::{string_of, push_str, chars_to_string};

use crate::domain::LocalizedString;
use crate::ui_fight::UiFight;
use crate::fights::timeline::{MAX_TIMER_SECONDS, seconds_to_ms};

verus! {

pub open spec fn aoe_shield_view(timer: i64, uuid: u128, phase_2_start: i64) -> AttackView {
    AttackView {
        uuid,
        name: "AoE Shield x 2"@,
        power: POWER_ONE,
        attack_type: AttackType::RaidDamage,
        timer: AttackTimer { dynamic_timer: Some(timer), phase_start: None, phase_end: Some(phase_2_start), dynamic_trigger_cleu_event: None },
    }
}

/// A pair of shields: the second comes half a shield duration after the first.
pub open spec fn aoe_shields_views(timer: i64, uuid1: u128, uuid2: u128, shield_durations: i64, phase_2_start: i64) -> Seq<AttackView> {
    seq![aoe_shield_view(timer, uuid1, phase_2_start), aoe_shield_view((timer + shield_durations / 2) as i64, uuid2, phase_2_start)]
}

/// "Debuffs " followed by the side in brackets, where there is one.
pub open spec fn debuffs_name(side: Option<Seq<char>>) -> Seq<char> {
    match side {
        Some(s) => "Debuffs "@ + "("@ + s + ")"@,
        None => "Debuffs "@,
    }
}

pub open spec fn debuffs_view(phase_start: i64, side: Option<Seq<char>>, counter: u64, uuid: u128, phase_2_start: i64) -> AttackView {
    AttackView {
        uuid,
        name: debuffs_name(side),
        power: POWER_ONE,
        attack_type: AttackType::Dispels,
        timer: AttackTimer {
            dynamic_timer: Some(8000),
            phase_start: Some(phase_start),
            phase_end: Some(phase_2_start),
            dynamic_trigger_cleu_event: Some(CleuEvent { event_type: CleuEventType::SpellAuraRemoved, event: 397383, counter }),
        },
    }
}

pub open spec fn pushback_view(timer: i64, side: Seq<char>, uuid: u128, phase_2_start: i64) -> AttackView {
    AttackView {
        uuid,
        name: "Pushback ("@ + side + ")"@,
        power: POWER_ONE,
        attack_type: AttackType::Movement,
        timer: AttackTimer { dynamic_timer: Some(timer), phase_start: None, phase_end: Some(phase_2_start), dynamic_trigger_cleu_event: None },
    }
}

pub open spec fn phase_2_attack_view(name: Seq<char>, timer: i64, uuid: u128, phase_2_start: i64) -> AttackView {
    AttackView {
        uuid,
        name,
        power: POWER_ONE,
        attack_type: AttackType::RaidDamage,
        timer: AttackTimer {
            dynamic_timer: Some(timer),
            phase_start: Some(phase_2_start),
            phase_end: None,
            dynamic_trigger_cleu_event: Some(CleuEvent { event_type: CleuEventType::SpellAuraApplied, event: 406585, counter: 1 }),
        },
    }
}

fn aoe_shield(timer: i64, uuid: u128, phase_2_start: i64) -> (a: Attack)
    ensures
        a@ == aoe_shield_view(timer, uuid, phase_2_start),
{
    make_attack(uuid, string_of("AoE Shield x 2"), POWER_ONE, AttackType::RaidDamage, AttackTimer {
        dynamic_timer: Some(timer),
        phase_start: None,
        phase_end: Some(phase_2_start),
        dynamic_trigger_cleu_event: None,
    })
}

fn push_aoe_shields(v: &mut Vec<Attack>, timer: i64, uuid1: u128, uuid2: u128, shield_durations: i64, phase_2_start: i64)
    requires
        0 <= timer <= 3_600_000,
        0 <= shield_durations <= MAX_FIGHT_TIME,
    ensures
        views(final(v)@) == views(old(v)@) + aoe_shields_views(timer, uuid1, uuid2, shield_durations, phase_2_start),
{
    v.push(aoe_shield(timer, uuid1, phase_2_start));
    v.push(aoe_shield(timer + shield_durations / 2, uuid2, phase_2_start));
    assert(views(v@) =~= views(old(v)@) + aoe_shields_views(timer, uuid1, uuid2, shield_durations, phase_2_start));
}

fn debuffs(phase_start: i64, side: Option<&str>, counter: u64, uuid: u128, phase_2_start: i64) -> (a: Attack)
    ensures
        a@ == debuffs_view(phase_start, match side { Some(s) => Some(s@), None => None }, counter, uuid, phase_2_start),
{
    let mut name: Vec<char> = Vec::new();
    push_str(&mut name, "Debuffs ");
    match side {
        Some(s) => {
            push_str(&mut name, "(");
            push_str(&mut name, s);
            push_str(&mut name, ")");
        },
        None => {},
    }
    make_attack(uuid, chars_to_string(&name), POWER_ONE, AttackType::Dispels, AttackTimer {
        dynamic_timer: Some(8000),
        phase_start: Some(phase_start),
        phase_end: Some(phase_2_start),
        dynamic_trigger_cleu_event: Some(CleuEvent { event_type: CleuEventType::SpellAuraRemoved, event: 397383, counter }),
    })
}

fn pushback(timer: i64, side: &str, uuid: u128, phase_2_start: i64) -> (a: Attack)
    ensures
        a@ == pushback_view(timer, side@, uuid, phase_2_start),
{
    let mut name: Vec<char> = Vec::new();
    push_str(&mut name, "Pushback (");
    push_str(&mut name, side);
    push_str(&mut name, ")");
    make_attack(uuid, chars_to_string(&name), POWER_ONE, AttackType::Movement, AttackTimer {
        dynamic_timer: Some(timer),
        phase_start: None,
        phase_end: Some(phase_2_start),
        dynamic_trigger_cleu_event: None,
    })
}

fn phase_2_attack(name: &str, timer: i64, uuid: u128, phase_2_start: i64) -> (a: Attack)
    ensures
        a@ == phase_2_attack_view(name@, timer, uuid, phase_2_start),
{
    make_attack(uuid, string_of(name), POWER_ONE, AttackType::RaidDamage, AttackTimer {
        dynamic_timer: Some(timer),
        phase_start: Some(phase_2_start),
        phase_end: None,
        dynamic_trigger_cleu_event: Some(CleuEvent { event_type: CleuEventType::SpellAuraApplied, event: 406585, counter: 1 }),
    })
}

/// The attacks of the first phase, in the order in which the fight lists them.
pub open spec fn assault_phase_1(shield_durations: i64, phase_2_start_timer: i64) -> Seq<AttackView> {
    seq![on_pull_view(0xe79bbdaf_fa90_4500_ba1a_1996b18a01d1)]
        + aoe_shields_views(ms(0, 29), 0x8ce1db8f_0aea_4a69_93c4_f4b4984f9334, 0xeb861988_38ce_440a_a87d_c5c1625a5f8a, shield_durations, phase_2_start_timer)
        + seq![debuffs_view(ms(0, 37), None, 2, 0x69581ed9_010a_424d_873a_7e317999a1ae, phase_2_start_timer)]
        + seq![pushback_view(ms(1, 16), "Right"@, 0x86471a73_2a9a_4b2c_aca3_d45948fdcc9f, phase_2_start_timer)]
        + aoe_shields_views(ms(1, 25), 0x41990e8f_ee10_477d_a0c3_5f29a01eba86, 0x1a525b15_9d62_4e6e_a10a_a0f185622de6, shield_durations, phase_2_start_timer)
        + seq![debuffs_view(ms(0, 37), Some("Right"@), 3, 0xa5b64f38_bfc9_416a_b475_457d20215c5b, phase_2_start_timer)]
        + aoe_shields_views(ms(2, 18), 0x199afa14_0b07_47e4_afd9_72bc0273062c, 0xff187594_f3e4_48aa_9617_f8ff28c22559, shield_durations, phase_2_start_timer)
        + seq![pushback_view(ms(2, 21), "Left"@, 0x934264dc_5260_4ab6_aa7c_b426544b1e20, phase_2_start_timer)]
        + seq![debuffs_view(ms(2, 29), Some("Left"@), 4, 0x7a539f88_391b_43b6_9a8d_03c962cfe59d, phase_2_start_timer)]
        + seq![pushback_view(ms(2, 55), "Right"@, 0x134ba25d_9f99_47bf_b0c5_6e3066a6e993, phase_2_start_timer)]
        + aoe_shields_views(ms(3, 5), 0x624817cd_40a6_44f7_b81f_f329a6516dee, 0xbc41322c_c84c_42c2_a135_5cdf71d49910, shield_durations, phase_2_start_timer)
        + seq![debuffs_view(ms(3, 13), Some("Right"@), 5, 0x5f5cbb3f_bba0_41b6_a3e6_c7b5743d1e02, phase_2_start_timer)]
        + aoe_shields_views(ms(3, 58), 0xb9be5d57_f03f_468f_9b37_7e67513fb332, 0x78595e3d_b10c_4231_98fa_491bb81868fd, shield_durations, phase_2_start_timer)
        + seq![pushback_view(ms(4, 3), "Left"@, 0xda6968fb_554c_4a66_a10e_fdf7779e2f1d, phase_2_start_timer)]
        + seq![debuffs_view(ms(4, 9), Some("Left"@), 6, 0x44541e19_f99a_4f2e_9f3c_8a21fc9e2356, phase_2_start_timer)]
        + seq![pushback_view(ms(4, 40), "Right"@, 0xa353094d_5ecd_4f6c_8a90_a9520e0f70a5, phase_2_start_timer)]
        + aoe_shields_views(ms(4, 45), 0xaf0d323f_5ce2_4269_845b_a88d162d8c1a, 0x9d4deea3_be0f_4dd8_a391_46b4da5e00ed, shield_durations, phase_2_start_timer)
        + seq![debuffs_view(ms(4, 53), Some("Right"@), 7, 0x6e26a40d_d110_4b24_a3ac_3e327c8f20a7, phase_2_start_timer)]
}

/// The attacks of the second phase, in the order in which the fight lists them.
pub open spec fn assault_phase_2(phase_2_start_timer: i64) -> Seq<AttackView> {
    seq![
        phase_2_attack_view("AoE"@, ms(0, 7), 0xd731a8c4_0de0_4ca9_85b3_53208caad0cb, phase_2_start_timer),
        phase_2_attack_view("Meteor Soak"@, ms(0, 15), 0x515875b2_6118_47a3_99a8_c92f60bf2492, phase_2_start_timer),
        phase_2_attack_view("AoE"@, ms(0, 30), 0xf7192bf5_6e84_4a42_b7ec_e9a2a73cbccd, phase_2_start_timer),
        phase_2_attack_view("Meteor Soak"@, ms(0, 42), 0x43841955_9ee5_4fdc_96aa_e14535f11e42, phase_2_start_timer),
        phase_2_attack_view("AoE"@, ms(0, 49), 0xfc9bf288_0df5_47dc_9717_4e45e753f3bf, phase_2_start_timer),
        phase_2_attack_view("AoE"@, ms(1, 1), 0x1908edad_2b2e_47fa_bc6f_485b9f9ddd72, phase_2_start_timer),
        phase_2_attack_view("Meteor Soak"@, ms(1, 9), 0x6284811d_83bb_4dac_991d_4730c8ac6178, phase_2_start_timer),
    ]
}

/// The fight's timeline: the views of what `assault_attacks` returns.
pub open spec fn assault_views(shield_durations: i64, phase_2_start_timer: i64) -> Seq<AttackView> {
    collect_views(sort_by_time(
        assault_phase_1(shield_durations, phase_2_start_timer).filter(window_view_pred(None, Some(phase_2_start_timer as i128)))
            + assault_phase_2(phase_2_start_timer),
        view_time_fn(),
    ))
}

/// The fight's attacks for the given shield duration and start of the second phase
/// (both in milliseconds): the first phase's attacks up to the second phase's start,
/// then the second phase's attacks, ordered by time.
pub fn assault_attacks(shield_durations: i64, phase_2_start_timer: i64) -> (r: Lookup<Attack>)
    requires
        0 <= shield_durations <= MAX_FIGHT_TIME,
    ensures
        r.wf(),
        views(r@) == assault_views(shield_durations, phase_2_start_timer),
{
    let mut v: Vec<Attack> = Vec::new();
    v.push(on_pull(0xe79bbdaf_fa90_4500_ba1a_1996b18a01d1));
    let ghost mut acc = seq![on_pull_view(0xe79bbdaf_fa90_4500_ba1a_1996b18a01d1)];
    assert(views(v@) =~= acc);
    push_aoe_shields(&mut v, mm_ss(0, 29), 0x8ce1db8f_0aea_4a69_93c4_f4b4984f9334, 0xeb861988_38ce_440a_a87d_c5c1625a5f8a, shield_durations, phase_2_start_timer);
    proof { acc = acc + aoe_shields_views(ms(0, 29), 0x8ce1db8f_0aea_4a69_93c4_f4b4984f9334, 0xeb861988_38ce_440a_a87d_c5c1625a5f8a, shield_durations, phase_2_start_timer); }
    assert(views(v@) =~= acc);
    v.push(debuffs(mm_ss(0, 37), None, 2, 0x69581ed9_010a_424d_873a_7e317999a1ae, phase_2_start_timer));
    proof { acc = acc + seq![debuffs_view(ms(0, 37), None, 2, 0x69581ed9_010a_424d_873a_7e317999a1ae, phase_2_start_timer)]; }
    assert(views(v@) =~= acc);
    v.push(pushback(mm_ss(1, 16), "Right", 0x86471a73_2a9a_4b2c_aca3_d45948fdcc9f, phase_2_start_timer));
    proof { acc = acc + seq![pushback_view(ms(1, 16), "Right"@, 0x86471a73_2a9a_4b2c_aca3_d45948fdcc9f, phase_2_start_timer)]; }
    assert(views(v@) =~= acc);
    push_aoe_shields(&mut v, mm_ss(1, 25), 0x41990e8f_ee10_477d_a0c3_5f29a01eba86, 0x1a525b15_9d62_4e6e_a10a_a0f185622de6, shield_durations, phase_2_start_timer);
    proof { acc = acc + aoe_shields_views(ms(1, 25), 0x41990e8f_ee10_477d_a0c3_5f29a01eba86, 0x1a525b15_9d62_4e6e_a10a_a0f185622de6, shield_durations, phase_2_start_timer); }
    assert(views(v@) =~= acc);
    v.push(debuffs(mm_ss(0, 37), Some("Right"), 3, 0xa5b64f38_bfc9_416a_b475_457d20215c5b, phase_2_start_timer));
    proof { acc = acc + seq![debuffs_view(ms(0, 37), Some("Right"@), 3, 0xa5b64f38_bfc9_416a_b475_457d20215c5b, phase_2_start_timer)]; }
    assert(views(v@) =~= acc);
    push_aoe_shields(&mut v, mm_ss(2, 18), 0x199afa14_0b07_47e4_afd9_72bc0273062c, 0xff187594_f3e4_48aa_9617_f8ff28c22559, shield_durations, phase_2_start_timer);
    proof { acc = acc + aoe_shields_views(ms(2, 18), 0x199afa14_0b07_47e4_afd9_72bc0273062c, 0xff187594_f3e4_48aa_9617_f8ff28c22559, shield_durations, phase_2_start_timer); }
    assert(views(v@) =~= acc);
    v.push(pushback(mm_ss(2, 21), "Left", 0x934264dc_5260_4ab6_aa7c_b426544b1e20, phase_2_start_timer));
    proof { acc = acc + seq![pushback_view(ms(2, 21), "Left"@, 0x934264dc_5260_4ab6_aa7c_b426544b1e20, phase_2_start_timer)]; }
    assert(views(v@) =~= acc);
    v.push(debuffs(mm_ss(2, 29), Some("Left"), 4, 0x7a539f88_391b_43b6_9a8d_03c962cfe59d, phase_2_start_timer));
    proof { acc = acc + seq![debuffs_view(ms(2, 29), Some("Left"@), 4, 0x7a539f88_391b_43b6_9a8d_03c962cfe59d, phase_2_start_timer)]; }
    assert(views(v@) =~= acc);
    v.push(pushback(mm_ss(2, 55), "Right", 0x134ba25d_9f99_47bf_b0c5_6e3066a6e993, phase_2_start_timer));
    proof { acc = acc + seq![pushback_view(ms(2, 55), "Right"@, 0x134ba25d_9f99_47bf_b0c5_6e3066a6e993, phase_2_start_timer)]; }
    assert(views(v@) =~= acc);
    push_aoe_shields(&mut v, mm_ss(3, 5), 0x624817cd_40a6_44f7_b81f_f329a6516dee, 0xbc41322c_c84c_42c2_a135_5cdf71d49910, shield_durations, phase_2_start_timer);
    proof { acc = acc + aoe_shields_views(ms(3, 5), 0x624817cd_40a6_44f7_b81f_f329a6516dee, 0xbc41322c_c84c_42c2_a135_5cdf71d49910, shield_durations, phase_2_start_timer); }
    assert(views(v@) =~= acc);
    v.push(debuffs(mm_ss(3, 13), Some("Right"), 5, 0x5f5cbb3f_bba0_41b6_a3e6_c7b5743d1e02, phase_2_start_timer));
    proof { acc = acc + seq![debuffs_view(ms(3, 13), Some("Right"@), 5, 0x5f5cbb3f_bba0_41b6_a3e6_c7b5743d1e02, phase_2_start_timer)]; }
    assert(views(v@) =~= acc);
    push_aoe_shields(&mut v, mm_ss(3, 58), 0xb9be5d57_f03f_468f_9b37_7e67513fb332, 0x78595e3d_b10c_4231_98fa_491bb81868fd, shield_durations, phase_2_start_timer);
    proof { acc = acc + aoe_shields_views(ms(3, 58), 0xb9be5d57_f03f_468f_9b37_7e67513fb332, 0x78595e3d_b10c_4231_98fa_491bb81868fd, shield_durations, phase_2_start_timer); }
    assert(views(v@) =~= acc);
    v.push(pushback(mm_ss(4, 3), "Left", 0xda6968fb_554c_4a66_a10e_fdf7779e2f1d, phase_2_start_timer));
    proof { acc = acc + seq![pushback_view(ms(4, 3), "Left"@, 0xda6968fb_554c_4a66_a10e_fdf7779e2f1d, phase_2_start_timer)]; }
    assert(views(v@) =~= acc);
    v.push(debuffs(mm_ss(4, 9), Some("Left"), 6, 0x44541e19_f99a_4f2e_9f3c_8a21fc9e2356, phase_2_start_timer));
    proof { acc = acc + seq![debuffs_view(ms(4, 9), Some("Left"@), 6, 0x44541e19_f99a_4f2e_9f3c_8a21fc9e2356, phase_2_start_timer)]; }
    assert(views(v@) =~= acc);
    v.push(pushback(mm_ss(4, 40), "Right", 0xa353094d_5ecd_4f6c_8a90_a9520e0f70a5, phase_2_start_timer));
    proof { acc = acc + seq![pushback_view(ms(4, 40), "Right"@, 0xa353094d_5ecd_4f6c_8a90_a9520e0f70a5, phase_2_start_timer)]; }
    assert(views(v@) =~= acc);
    push_aoe_shields(&mut v, mm_ss(4, 45), 0xaf0d323f_5ce2_4269_845b_a88d162d8c1a, 0x9d4deea3_be0f_4dd8_a391_46b4da5e00ed, shield_durations, phase_2_start_timer);
    proof { acc = acc + aoe_shields_views(ms(4, 45), 0xaf0d323f_5ce2_4269_845b_a88d162d8c1a, 0x9d4deea3_be0f_4dd8_a391_46b4da5e00ed, shield_durations, phase_2_start_timer); }
    assert(views(v@) =~= acc);
    v.push(debuffs(mm_ss(4, 53), Some("Right"), 7, 0x6e26a40d_d110_4b24_a3ac_3e327c8f20a7, phase_2_start_timer));
    proof { acc = acc + seq![debuffs_view(ms(4, 53), Some("Right"@), 7, 0x6e26a40d_d110_4b24_a3ac_3e327c8f20a7, phase_2_start_timer)]; }
    assert(views(v@) =~= acc);
    assert(acc == assault_phase_1(shield_durations, phase_2_start_timer));
    let mut kept = keep_within(v, None, Some(phase_2_start_timer as i128));
    let mut w: Vec<Attack> = Vec::new();
    w.push(phase_2_attack("AoE", mm_ss(0, 7), 0xd731a8c4_0de0_4ca9_85b3_53208caad0cb, phase_2_start_timer));
    w.push(phase_2_attack("Meteor Soak", mm_ss(0, 15), 0x515875b2_6118_47a3_99a8_c92f60bf2492, phase_2_start_timer));
    w.push(phase_2_attack("AoE", mm_ss(0, 30), 0xf7192bf5_6e84_4a42_b7ec_e9a2a73cbccd, phase_2_start_timer));
    w.push(phase_2_attack("Meteor Soak", mm_ss(0, 42), 0x43841955_9ee5_4fdc_96aa_e14535f11e42, phase_2_start_timer));
    w.push(phase_2_attack("AoE", mm_ss(0, 49), 0xfc9bf288_0df5_47dc_9717_4e45e753f3bf, phase_2_start_timer));
    w.push(phase_2_attack("AoE", mm_ss(1, 1), 0x1908edad_2b2e_47fa_bc6f_485b9f9ddd72, phase_2_start_timer));
    w.push(phase_2_attack("Meteor Soak", mm_ss(1, 9), 0x6284811d_83bb_4dac_991d_4730c8ac6178, phase_2_start_timer));
    assert(views(w@) =~= assault_phase_2(phase_2_start_timer));
    let ghost k = kept@;
    kept.append(&mut w);
    assert(views(kept@) =~= views(k) + assault_phase_2(phase_2_start_timer));
    into_timeline(kept)
}


/// The times since the pull at which the shields are cast in the first phase.
pub open spec fn shield_cast_times() -> Seq<int> {
    seq![29000, 85000, 138000, 185000, 238000, 285000]
}

/// Where a uuid stands among the attacks that the fight lists, both phases in their
/// order; -1 for one that it does not list.
spec fn listed_position(u: u128) -> int {
    if u == 0xe79bbdaf_fa90_4500_ba1a_1996b18a01d1 {
        0
    } else if u == 0x8ce1db8f_0aea_4a69_93c4_f4b4984f9334 {
        1
    } else if u == 0xeb861988_38ce_440a_a87d_c5c1625a5f8a {
        2
    } else if u == 0x69581ed9_010a_424d_873a_7e317999a1ae {
        3
    } else if u == 0x86471a73_2a9a_4b2c_aca3_d45948fdcc9f {
        4
    } else if u == 0x41990e8f_ee10_477d_a0c3_5f29a01eba86 {
        5
    } else if u == 0x1a525b15_9d62_4e6e_a10a_a0f185622de6 {
        6
    } else if u == 0xa5b64f38_bfc9_416a_b475_457d20215c5b {
        7
    } else if u == 0x199afa14_0b07_47e4_afd9_72bc0273062c {
        8
    } else if u == 0xff187594_f3e4_48aa_9617_f8ff28c22559 {
        9
    } else if u == 0x934264dc_5260_4ab6_aa7c_b426544b1e20 {
        10
    } else if u == 0x7a539f88_391b_43b6_9a8d_03c962cfe59d {
        11
    } else if u == 0x134ba25d_9f99_47bf_b0c5_6e3066a6e993 {
        12
    } else if u == 0x624817cd_40a6_44f7_b81f_f329a6516dee {
        13
    } else if u == 0xbc41322c_c84c_42c2_a135_5cdf71d49910 {
        14
    } else if u == 0x5f5cbb3f_bba0_41b6_a3e6_c7b5743d1e02 {
        15
    } else if u == 0xb9be5d57_f03f_468f_9b37_7e67513fb332 {
        16
    } else if u == 0x78595e3d_b10c_4231_98fa_491bb81868fd {
        17
    } else if u == 0xda6968fb_554c_4a66_a10e_fdf7779e2f1d {
        18
    } else if u == 0x44541e19_f99a_4f2e_9f3c_8a21fc9e2356 {
        19
    } else if u == 0xa353094d_5ecd_4f6c_8a90_a9520e0f70a5 {
        20
    } else if u == 0xaf0d323f_5ce2_4269_845b_a88d162d8c1a {
        21
    } else if u == 0x9d4deea3_be0f_4dd8_a391_46b4da5e00ed {
        22
    } else if u == 0x6e26a40d_d110_4b24_a3ac_3e327c8f20a7 {
        23
    } else if u == 0xd731a8c4_0de0_4ca9_85b3_53208caad0cb {
        24
    } else if u == 0x515875b2_6118_47a3_99a8_c92f60bf2492 {
        25
    } else if u == 0xf7192bf5_6e84_4a42_b7ec_e9a2a73cbccd {
        26
    } else if u == 0x43841955_9ee5_4fdc_96aa_e14535f11e42 {
        27
    } else if u == 0xfc9bf288_0df5_47dc_9717_4e45e753f3bf {
        28
    } else if u == 0x1908edad_2b2e_47fa_bc6f_485b9f9ddd72 {
        29
    } else if u == 0x6284811d_83bb_4dac_991d_4730c8ac6178 {
        30
    } else {
        -1
    }
}

proof fn lemma_listed_position(shield_durations: i64, phase_2_start_timer: i64, k: int)
    requires
        0 <= k < 31,
    ensures
        (assault_phase_1(shield_durations, phase_2_start_timer) + assault_phase_2(phase_2_start_timer)).len() == 31,
        listed_position((assault_phase_1(shield_durations, phase_2_start_timer) + assault_phase_2(phase_2_start_timer))[k].uuid) == k,
{
}

/// No two attacks that the fight lists share a uuid.
proof fn lemma_listed_uuids_distinct(shield_durations: i64, phase_2_start_timer: i64, i: int, j: int)
    requires
        0 <= i < 31,
        0 <= j < 31,
        (assault_phase_1(shield_durations, phase_2_start_timer) + assault_phase_2(phase_2_start_timer))[i].uuid
            == (assault_phase_1(shield_durations, phase_2_start_timer) + assault_phase_2(phase_2_start_timer))[j].uuid,
    ensures
        i == j,
{
    lemma_listed_position(shield_durations, phase_2_start_timer, i);
    lemma_listed_position(shield_durations, phase_2_start_timer, j);
}

/// Where the first shield of the cast at `cast` stands in the first phase's listing;
/// the second follows it.
spec fn first_shield_index(cast: int) -> int {
    if cast == 29000 {
        1
    } else if cast == 85000 {
        5
    } else if cast == 138000 {
        8
    } else if cast == 185000 {
        13
    } else if cast == 238000 {
        16
    } else {
        21
    }
}

proof fn lemma_shield_listing(shield_durations: i64, phase_2_start_timer: i64, cast: int)
    requires
        0 <= shield_durations <= MAX_FIGHT_TIME,
        shield_cast_times().contains(cast),
    ensures
        assault_phase_1(shield_durations, phase_2_start_timer).len() == 24,
        0 <= first_shield_index(cast) < 23,
        assault_phase_1(shield_durations, phase_2_start_timer)[first_shield_index(cast)].name == "AoE Shield x 2"@,
        view_time(assault_phase_1(shield_durations, phase_2_start_timer)[first_shield_index(cast)]) == cast,
        assault_phase_1(shield_durations, phase_2_start_timer)[first_shield_index(cast) + 1].name == "AoE Shield x 2"@,
        view_time(assault_phase_1(shield_durations, phase_2_start_timer)[first_shield_index(cast) + 1]) == cast + shield_durations / 2,
{
    let i = choose|i: int| 0 <= i < shield_cast_times().len() && shield_cast_times()[i] == cast;
    assert(shield_cast_times()[i] == cast);
}

/// An attack of the first phase that comes no later than the second phase's start is
/// in the timeline.
proof fn lemma_first_phase_kept(shield_durations: i64, phase_2_start_timer: i64, k: int)
    requires
        0 <= k < assault_phase_1(shield_durations, phase_2_start_timer).len(),
        view_time(assault_phase_1(shield_durations, phase_2_start_timer)[k]) <= phase_2_start_timer,
    ensures
        assault_views(shield_durations, phase_2_start_timer).contains(assault_phase_1(shield_durations, phase_2_start_timer)[k]),
{
    broadcast use vstd::seq_lib::group_to_multiset_ensures;
    let p1 = assault_phase_1(shield_durations, phase_2_start_timer);
    let p2 = assault_phase_2(phase_2_start_timer);
    let listed = p1 + p2;
    let w = window_view_pred(None, Some(phase_2_start_timer as i128));
    let f = p1.filter(w);
    let s = f + p2;
    let t = sort_by_time(s, view_time_fn());
    let x = p1[k];
    lemma_listed_position(shield_durations, phase_2_start_timer, 0);
    p1.filter_lemma(w);
    assert(w(p1[k]));
    assert(f.contains(x));
    let m = choose|m: int| 0 <= m < f.len() && f[m] == x;
    assert(s[m] == x);
    assert(s.contains(x));
    lemma_sort_ordered(s, view_time_fn());
    assert(s.to_multiset().count(x) > 0);
    assert(t.to_multiset().count(x) > 0);
    assert(t.contains(x));
    lemma_sort_members(s);
    lemma_filter_members(p1, w);
    assert(listed[k] == x);
    assert forall|i: int| 0 <= i < t.len() && #[trigger] t[i].uuid == x.uuid implies t[i] == x by {
        let y = t[i];
        assert(s.contains(y));
        let n = choose|n: int| 0 <= n < s.len() && s[n] == y;
        if n < f.len() {
            assert(f[n] == y);
            assert(p1.contains(f[n]));
            let a = choose|a: int| 0 <= a < p1.len() && p1[a] == y;
            assert(listed[a] == y);
            lemma_listed_uuids_distinct(shield_durations, phase_2_start_timer, a, k);
        } else {
            let b = n - f.len();
            assert(p2[b] == y);
            assert(listed[24 + b] == y);
            lemma_listed_uuids_distinct(shield_durations, phase_2_start_timer, 24 + b, k);
        }
    }
    lemma_collect_views_keeps(t, x);
}

/// Every shield cast of the first phase puts two "AoE Shield x 2" attacks in the
/// timeline, one at the cast and one half a shield duration later; each of them is
/// there when it comes no later than the second phase's start.
pub proof fn law_shields_come_in_pairs(shield_durations: i64, phase_2_start_timer: i64, cast: int)
    requires
        0 <= shield_durations <= MAX_FIGHT_TIME,
        shield_cast_times().contains(cast),
    ensures
        cast <= phase_2_start_timer ==> exists|i: int|
            0 <= i < assault_views(shield_durations, phase_2_start_timer).len()
                && (#[trigger] assault_views(shield_durations, phase_2_start_timer)[i]).name == "AoE Shield x 2"@
                && view_time(assault_views(shield_durations, phase_2_start_timer)[i]) == cast,
        cast + shield_durations / 2 <= phase_2_start_timer ==> exists|i: int, j: int|
            0 <= i < assault_views(shield_durations, phase_2_start_timer).len()
                && 0 <= j < assault_views(shield_durations, phase_2_start_timer).len()
                && i != j
                && (#[trigger] assault_views(shield_durations, phase_2_start_timer)[i]).name == "AoE Shield x 2"@
                && (#[trigger] assault_views(shield_durations, phase_2_start_timer)[j]).name == "AoE Shield x 2"@
                && view_time(assault_views(shield_durations, phase_2_start_timer)[i]) == cast
                && view_time(assault_views(shield_durations, phase_2_start_timer)[j]) == cast + shield_durations / 2,
{
    let r = assault_views(shield_durations, phase_2_start_timer);
    let p1 = assault_phase_1(shield_durations, phase_2_start_timer);
    lemma_shield_listing(shield_durations, phase_2_start_timer, cast);
    let k = first_shield_index(cast);
    if cast <= phase_2_start_timer {
        lemma_first_phase_kept(shield_durations, phase_2_start_timer, k);
        let i = choose|i: int| 0 <= i < r.len() && r[i] == p1[k];
        assert(r[i] == p1[k]);
    }
    if cast + shield_durations / 2 <= phase_2_start_timer {
        lemma_first_phase_kept(shield_durations, phase_2_start_timer, k + 1);
        let i = choose|i: int| 0 <= i < r.len() && r[i] == p1[k];
        let j = choose|j: int| 0 <= j < r.len() && r[j] == p1[k + 1];
        lemma_listed_position(shield_durations, phase_2_start_timer, k);
        lemma_listed_position(shield_durations, phase_2_start_timer, k + 1);
        assert((p1 + assault_phase_2(phase_2_start_timer))[k] == p1[k]);
        assert((p1 + assault_phase_2(phase_2_start_timer))[k + 1] == p1[k + 1]);
        assert(p1[k].uuid != p1[k + 1].uuid);
        assert(r[i] == p1[k] && r[j] == p1[k + 1]);
    }
}

/// The fight's parameters, in seconds: how long the shields hold and when the second
/// phase starts.
pub struct AssaultProps {
    pub shield_durations: u64,
    pub phase_2_start_timer: u64,
}

impl AssaultProps {
    /// 0:15 and 4:37.
    pub fn new() -> (p: Self)
        ensures
            p.shield_durations == 15,
            p.phase_2_start_timer == 277,
    {
        AssaultProps { shield_durations: 15, phase_2_start_timer: 277 }
    }

    /// The attacks for these parameters.
    pub fn attacks(&self) -> (r: Lookup<Attack>)
        requires
            self.shield_durations < MAX_TIMER_SECONDS,
            self.phase_2_start_timer < MAX_TIMER_SECONDS,
        ensures
            r.wf(),
            views(r@) == assault_views((self.shield_durations * 1000) as i64, (self.phase_2_start_timer * 1000) as i64),
    {
        assault_attacks(seconds_to_ms(self.shield_durations), seconds_to_ms(self.phase_2_start_timer))
    }
}

/// The mythic fight against the Assault of the Zaqali, with its default parameters.
pub fn mythic(encounter_id: u64, encounter_name: LocalizedString) -> (f: UiFight)
    ensures
        f.encounter_id == encounter_id,
        f.encounter_name == encounter_name,
        f.image_path@ == "boss/assault.png"@,
        f.image_offset == 35,
        f.attacks.wf(),
        views(f.attacks@) == assault_views(15000, 277000),
{
    let props = AssaultProps::new();
    UiFight::new(encounter_id, encounter_name, string_of("boss/assault.png"), 35, props.attacks())
}

} // verus!
