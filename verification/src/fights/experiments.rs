//! The Rashok's experiments (mythic): Neldris until its death, Thadrion while it is
//! active, Rionthus from its activation, and the heals and dispels over the fight.
use vstd::prelude::*;
use crate::domain::{Attack, AttackView, AttackTimer, AttackType, ms, mm_ss};
use crate::lookup::Lookup;
use crate::fights::timeline::{views, on_pull, on_pull_view, make_attack, into_timeline, collect_views, sort_by_time, view_time_fn, keep_within, keep_after_phase_start, window_view_pred, after_phase_start_view_pred, POWER_ONE, MAX_FIGHT_TIME};
use crate::text::string_of;

use crate::domain::LocalizedString;
use crate::ui_fight::UiFight;
use crate::fights::timeline::{TimerBounds, MAX_TIMER_SECONDS, seconds_to_ms, view_has_uuid, view_time, lemma_collect_views_uuid, lemma_sort_uuid, lemma_concat_uuid, lemma_filter_uuid, lemma_filter_filter, lemma_collect_views_members, lemma_sort_members, lemma_filter_members};

verus! {

/// An attack of Neldris, which ends with Neldris's death.
pub open spec fn neldris_view(name: Seq<char>, attack_type: AttackType, timer: i64, uuid: u128, neldris_death: i64) -> AttackView {
    AttackView {
        uuid,
        name,
        power: POWER_ONE,
        attack_type,
        timer: AttackTimer { dynamic_timer: Some(timer), phase_start: None, phase_end: Some(neldris_death), dynamic_trigger_cleu_event: None },
    }
}

/// An attack at `timer` since the pull, counted from the start of a phase that ends at `phase_end`.
pub open spec fn phased_view(name: Seq<char>, attack_type: AttackType, timer: i64, uuid: u128, phase_start: Option<i64>, phase_end: Option<i64>) -> AttackView {
    AttackView {
        uuid,
        name,
        power: POWER_ONE,
        attack_type,
        timer: AttackTimer {
            dynamic_timer: Some((timer - crate::domain::opt_time(phase_start)) as i64),
            phase_start,
            phase_end,
            dynamic_trigger_cleu_event: None,
        },
    }
}

/// Two debuffs, 21 seconds apart, and an AoE 41 seconds after the first.
pub open spec fn thadrion_sequence_views(timer: i64, uuid1: u128, uuid2: u128, uuid3: u128, active: i64, death: i64) -> Seq<AttackView> {
    seq![
        phased_view("Thadrion Debuff"@, AttackType::Debuffs, timer, uuid1, Some(active), Some(death)),
        phased_view("Thadrion Debuff"@, AttackType::Debuffs, (timer + 21000) as i64, uuid2, Some(active), Some(death)),
        phased_view("Thadrion AoE 8 sec"@, AttackType::RaidDamage, (timer + 41000) as i64, uuid3, Some(active), Some(death)),
    ]
}

/// A beam, and a breath 26 seconds later.
pub open spec fn rionthus_sequence_views(timer: i64, uuid1: u128, uuid2: u128, active: i64) -> Seq<AttackView> {
    seq![
        phased_view("Rionthus Beam"@, AttackType::RotDamage, timer, uuid1, Some(active), None),
        phased_view("Rionthus Breath"@, AttackType::Movement, (timer + 26000) as i64, uuid2, Some(active), None),
    ]
}

/// A heal, and a dispel ten seconds later; during Thadrion's phase both count from it.
pub open spec fn heal_dispel_views(timer: i64, thadrion_phase: bool, uuid1: u128, uuid2: u128, active: i64, death: i64) -> Seq<AttackView> {
    let start = if thadrion_phase { Some(active) } else { None };
    let end = if thadrion_phase { Some(death) } else { None };
    seq![
        phased_view("Heal!"@, AttackType::RaidDamage, timer, uuid1, start, end),
        phased_view("Dispel"@, AttackType::Dispels, (timer + 10000) as i64, uuid2, start, end),
    ]
}

/// The first dispel, at 1:21, in a phase that starts 19 seconds after Thadrion's activation.
pub open spec fn first_dispel_view(uuid: u128, active: i64, death: i64) -> AttackView {
    phased_view("Dispel"@, AttackType::Dispels, ms(1, 21), uuid, Some((active + 19000) as i64), Some(death))
}

/// The second dispel, at 1:51, in Thadrion's phase.
pub open spec fn second_dispel_view(uuid: u128, active: i64, death: i64) -> AttackView {
    phased_view("Dispel"@, AttackType::Dispels, ms(1, 51), uuid, Some(active), Some(death))
}

fn neldris_attack(name: &str, attack_type: AttackType, timer: i64, uuid: u128, neldris_death: i64) -> (a: Attack)
    ensures
        a@ == neldris_view(name@, attack_type, timer, uuid, neldris_death),
{
    make_attack(uuid, string_of(name), POWER_ONE, attack_type, AttackTimer {
        dynamic_timer: Some(timer),
        phase_start: None,
        phase_end: Some(neldris_death),
        dynamic_trigger_cleu_event: None,
    })
}

fn phased(name: &str, attack_type: AttackType, timer: i64, uuid: u128, phase_start: Option<i64>, phase_end: Option<i64>) -> (a: Attack)
    requires
        0 <= timer <= 3_600_000,
        phase_start matches Some(s) ==> 0 <= s <= MAX_FIGHT_TIME + 3_600_000,
    ensures
        a@ == phased_view(name@, attack_type, timer, uuid, phase_start, phase_end),
{
    let start: i64 = match phase_start {
        Some(s) => s,
        None => 0,
    };
    make_attack(uuid, string_of(name), POWER_ONE, attack_type, AttackTimer {
        dynamic_timer: Some(timer - start),
        phase_start,
        phase_end,
        dynamic_trigger_cleu_event: None,
    })
}

fn push_thadrion_sequence(v: &mut Vec<Attack>, timer: i64, uuid1: u128, uuid2: u128, uuid3: u128, active: i64, death: i64)
    requires
        0 <= timer <= 3_000_000,
        0 <= active <= MAX_FIGHT_TIME,
    ensures
        views(final(v)@) == views(old(v)@) + thadrion_sequence_views(timer, uuid1, uuid2, uuid3, active, death),
{
    v.push(phased("Thadrion Debuff", AttackType::Debuffs, timer, uuid1, Some(active), Some(death)));
    v.push(phased("Thadrion Debuff", AttackType::Debuffs, timer + 21000, uuid2, Some(active), Some(death)));
    v.push(phased("Thadrion AoE 8 sec", AttackType::RaidDamage, timer + 41000, uuid3, Some(active), Some(death)));
    assert(views(v@) =~= views(old(v)@) + thadrion_sequence_views(timer, uuid1, uuid2, uuid3, active, death));
}

fn push_rionthus_sequence(v: &mut Vec<Attack>, timer: i64, uuid1: u128, uuid2: u128, active: i64)
    requires
        0 <= timer <= 3_000_000,
        0 <= active <= MAX_FIGHT_TIME,
    ensures
        views(final(v)@) == views(old(v)@) + rionthus_sequence_views(timer, uuid1, uuid2, active),
{
    v.push(phased("Rionthus Beam", AttackType::RotDamage, timer, uuid1, Some(active), None));
    v.push(phased("Rionthus Breath", AttackType::Movement, timer + 26000, uuid2, Some(active), None));
    assert(views(v@) =~= views(old(v)@) + rionthus_sequence_views(timer, uuid1, uuid2, active));
}

fn push_heal_dispel(v: &mut Vec<Attack>, timer: i64, thadrion_phase: bool, uuid1: u128, uuid2: u128, active: i64, death: i64)
    requires
        0 <= timer <= 3_000_000,
        0 <= active <= MAX_FIGHT_TIME,
    ensures
        views(final(v)@) == views(old(v)@) + heal_dispel_views(timer, thadrion_phase, uuid1, uuid2, active, death),
{
    let start = if thadrion_phase { Some(active) } else { None };
    let end = if thadrion_phase { Some(death) } else { None };
    v.push(phased("Heal!", AttackType::RaidDamage, timer, uuid1, start, end));
    v.push(phased("Dispel", AttackType::Dispels, timer + 10000, uuid2, start, end));
    assert(views(v@) =~= views(old(v)@) + heal_dispel_views(timer, thadrion_phase, uuid1, uuid2, active, death));
}

fn first_dispel(uuid: u128, active: i64, death: i64) -> (a: Attack)
    requires
        0 <= active <= MAX_FIGHT_TIME,
    ensures
        a@ == first_dispel_view(uuid, active, death),
{
    phased("Dispel", AttackType::Dispels, mm_ss(1, 21), uuid, Some(active + 19000), Some(death))
}

fn second_dispel(uuid: u128, active: i64, death: i64) -> (a: Attack)
    requires
        0 <= active <= MAX_FIGHT_TIME,
    ensures
        a@ == second_dispel_view(uuid, active, death),
{
    phased("Dispel", AttackType::Dispels, mm_ss(1, 51), uuid, Some(active), Some(death))
}

/// Neldris's attacks, in the order in which the fight lists them.
pub open spec fn neldris_attacks(neldris_death_timer: i64) -> Seq<AttackView> {
    seq![on_pull_view(0xd43085ac_670f_4922_a5f8_1ea1d1f598b1)]
        + seq![neldris_view("Neldris AoE"@, AttackType::RaidDamage, ms(0, 10), 0xd7219441_63dd_4f26_883f_753c97deb432, neldris_death_timer)]
        + seq![neldris_view("Neldris DoT"@, AttackType::RotDamage, ms(0, 19), 0xcad042d0_375c_409c_9a03_bdbe8f74adb1, neldris_death_timer)]
        + seq![neldris_view("Neldris AoE"@, AttackType::RaidDamage, ms(0, 40), 0x9dc58c41_18a7_45e8_8512_717ab7aeb64a, neldris_death_timer)]
        + seq![neldris_view("Neldris DoT"@, AttackType::RotDamage, ms(0, 56), 0xa1f2e377_0a2d_4f53_a95a_1ab73f58756f, neldris_death_timer)]
        + seq![neldris_view("Neldris AoE"@, AttackType::RaidDamage, ms(1, 5), 0x28db4ed7_1b96_4440_a659_c5d6ee5b8d43, neldris_death_timer)]
        + seq![neldris_view("Neldris DoT"@, AttackType::RotDamage, ms(1, 14), 0x3a343809_279b_41a2_84b3_e0ba362c9028, neldris_death_timer)]
        + seq![neldris_view("Neldris AoE"@, AttackType::RaidDamage, ms(1, 35), 0x335cf3ff_f9cc_4bb1_9b05_2c62b9993b96, neldris_death_timer)]
        + seq![neldris_view("Neldris DoT"@, AttackType::RotDamage, ms(1, 51), 0xf6784738_2ff2_46db_8806_a4db81bf0c2e, neldris_death_timer)]
        + seq![neldris_view("Neldris AoE"@, AttackType::RaidDamage, ms(2, 0), 0xdae36a3e_2c7a_4bf8_bb0b_8355c2ce7f0e, neldris_death_timer)]
        + seq![neldris_view("Neldris DoT"@, AttackType::RotDamage, ms(2, 9), 0xf27a5274_fa9a_4bc2_a15a_be94a8b09466, neldris_death_timer)]
        + seq![neldris_view("Neldris AoE"@, AttackType::RaidDamage, ms(2, 30), 0x97d14315_bccd_4584_acf5_ad8996e9674b, neldris_death_timer)]
        + seq![neldris_view("Neldris DoT"@, AttackType::RotDamage, ms(2, 46), 0x0587ea77_ba30_4510_ae53_b041216beecb, neldris_death_timer)]
        + seq![neldris_view("Neldris AoE"@, AttackType::RaidDamage, ms(2, 55), 0xde5a8f91_2a69_4bf5_b0b5_02fca2c03c40, neldris_death_timer)]
        + seq![neldris_view("Neldris DoT"@, AttackType::RotDamage, ms(3, 3), 0xc4da13bb_b943_49f1_9e2d_1fa0281ecae9, neldris_death_timer)]
}

/// Thadrion's attacks, in the order in which the fight lists them.
pub open spec fn thadrion_attacks(thadrion_active_timer: i64, thadrion_death_timer: i64) -> Seq<AttackView> {
    thadrion_sequence_views(ms(1, 2), 0x20fbccbc_5682_48a4_b7a7_514fbb38b4b6, 0xf53e7b00_2a8c_4e86_9c2e_5e57348de062, 0xad31e027_9110_4d1b_8bea_6c4b65af7cc7, thadrion_active_timer, thadrion_death_timer)
        + thadrion_sequence_views(ms(1, 57), 0x6002b9c7_56a1_4e64_84d6_826dd1de5d6d, 0x6385246a_68be_4598_ab61_4e576a5a0c63, 0xcb53aad8_e87c_4714_ae43_0ed103aea552, thadrion_active_timer, thadrion_death_timer)
        + thadrion_sequence_views(ms(2, 52), 0x9c39859b_897e_4b8f_a50c_c901f79ccdce, 0xea82cec0_394f_4291_9a93_2bceb5185eef, 0xa235add9_c8f6_4825_b999_c57ec28f9420, thadrion_active_timer, thadrion_death_timer)
        + thadrion_sequence_views(ms(3, 48), 0x76e3c04c_437b_41cd_8149_6f9de775d336, 0x0df341c6_7b25_46b6_ba47_15231e2a61c4, 0x4633b90f_53ae_472c_baee_36d478049bad, thadrion_active_timer, thadrion_death_timer)
}

/// Rionthus's attacks, in the order in which the fight lists them.
pub open spec fn rionthus_attacks(rionthus_active_timer: i64) -> Seq<AttackView> {
    rionthus_sequence_views(ms(1, 58), 0xf28a2d05_4ce9_474f_a384_d1e8f7d47ef9, 0x1fbd25e1_a671_4106_8074_8cef5cbfa0ec, rionthus_active_timer)
        + rionthus_sequence_views(ms(2, 53), 0x3f28fec0_2d5d_4134_baef_4eef054fe054, 0x45a94b5d_dfbd_442a_9e23_a4cf2a0a6922, rionthus_active_timer)
        + rionthus_sequence_views(ms(3, 47), 0xef8c5624_422f_455c_8a87_98f7353add3c, 0x2431fa63_b149_4656_b006_e1368c07b691, rionthus_active_timer)
        + rionthus_sequence_views(ms(4, 42), 0xa6475ee2_7e50_40f0_ad4b_86e6a0a2366d, 0x5ca55496_13b4_48c0_bc26_6d4f1fb5760e, rionthus_active_timer)
        + rionthus_sequence_views(ms(5, 37), 0x13ef5daf_35c5_4fd0_838f_5a48d15d6c76, 0x6e6da0db_2dc2_4290_850a_6524c127fd82, rionthus_active_timer)
        + rionthus_sequence_views(ms(6, 32), 0x1e7c4cc4_f45c_4f0d_8fba_efcc2e2f663b, 0x948f2fdf_6446_4b63_bd4a_8e26f57e9a6b, rionthus_active_timer)
        + rionthus_sequence_views(ms(7, 27), 0x14708860_f08e_4f70_ae4c_7fc0c2e56773, 0x0a4e5090_1472_45ca_9b2c_9fa9906b705b, rionthus_active_timer)
}

/// The heals and dispels, in the order in which the fight lists them.
pub open spec fn dispel_attacks(thadrion_active_timer: i64, thadrion_death_timer: i64) -> Seq<AttackView> {
    seq![first_dispel_view(0x57998b42_aeeb_47f2_9642_ee9e67ee572a, thadrion_active_timer, thadrion_death_timer), second_dispel_view(0xcdef54a2_29a4_49c9_a993_1b671668a778, thadrion_active_timer, thadrion_death_timer)]
        + heal_dispel_views(ms(2, 7), true, 0xd37bbb30_cdbc_4842_9151_ad7e82245641, 0x24c2a50c_16f9_4f58_99be_b5f7a5f4eafb, thadrion_active_timer, thadrion_death_timer)
        + heal_dispel_views(ms(2, 35), true, 0x43bb4574_7bc1_4b42_a580_2aa030c2a5e9, 0x97eee688_bc27_48e5_87a4_4f60637137b1, thadrion_active_timer, thadrion_death_timer)
        + heal_dispel_views(ms(3, 2), false, 0xc7140b58_d03d_498a_bc16_d1e3c4c1de2c, 0xddab2e19_6470_4dd1_98d9_7b807c79fa7d, thadrion_active_timer, thadrion_death_timer)
        + heal_dispel_views(ms(3, 31), false, 0x7bb29eb1_15b7_4be4_abfb_9d50ca147464, 0x26db457d_5db8_44ee_9c59_9aa2d8d57ed4, thadrion_active_timer, thadrion_death_timer)
        + heal_dispel_views(ms(3, 54), false, 0xea004e51_1c11_4dce_afe0_3591c07d91c2, 0x953fffbd_9d02_4f07_97a5_81f37851ad3f, thadrion_active_timer, thadrion_death_timer)
        + heal_dispel_views(ms(4, 22), false, 0xd3344292_d1f2_4ffb_bae3_a273defc39c8, 0x32ad9da5_84e8_4159_bbff_b4014e2b19dd, thadrion_active_timer, thadrion_death_timer)
        + heal_dispel_views(ms(4, 51), false, 0x913ba9d2_b897_4ad2_9089_8b68e204c0cf, 0x9dfa4245_29c5_4012_94c7_294123d762de, thadrion_active_timer, thadrion_death_timer)
        + heal_dispel_views(ms(5, 17), false, 0x95caf4f4_4088_40ee_bf29_0807f2029282, 0xc696776e_5ebb_48d9_9e32_a88aae4cdf09, thadrion_active_timer, thadrion_death_timer)
        + heal_dispel_views(ms(5, 43), false, 0xbeaa23d8_c0cf_419c_9e35_008a24dc4861, 0x7c01c237_6db8_4d45_99ee_af9b8a219c37, thadrion_active_timer, thadrion_death_timer)
        + heal_dispel_views(ms(6, 9), false, 0x258e21ea_859d_4b60_bc00_1e4efa741040, 0x4a8d477c_9c29_4d64_a55f_eb93441badd5, thadrion_active_timer, thadrion_death_timer)
        + heal_dispel_views(ms(6, 35), false, 0xca113299_668f_4e70_b8de_4c57795e62c5, 0x1b1e805c_8506_4236_8b8c_4173ed0ccb66, thadrion_active_timer, thadrion_death_timer)
        + heal_dispel_views(ms(7, 1), false, 0xf49c6dd4_6ff1_4f37_a7c5_c7ca3e4909ed, 0x4fe3febb_e055_4830_8aec_66a7f9133eff, thadrion_active_timer, thadrion_death_timer)
        + heal_dispel_views(ms(7, 27), false, 0x79544c8f_6daf_48d4_aed1_c070e5cc7787, 0xa42e41c0_876c_49ba_8da8_097b539a23c9, thadrion_active_timer, thadrion_death_timer)
}

fn neldris_list(neldris_death_timer: i64) -> (v: Vec<Attack>)
    requires
        true,
    ensures
        views(v@) == neldris_attacks(neldris_death_timer),
{
    let mut v: Vec<Attack> = Vec::new();
    v.push(on_pull(0xd43085ac_670f_4922_a5f8_1ea1d1f598b1));
    let ghost mut acc = seq![on_pull_view(0xd43085ac_670f_4922_a5f8_1ea1d1f598b1)];
    assert(views(v@) =~= acc);
    v.push(neldris_attack("Neldris AoE", AttackType::RaidDamage, mm_ss(0, 10), 0xd7219441_63dd_4f26_883f_753c97deb432, neldris_death_timer));
    proof { acc = acc + seq![neldris_view("Neldris AoE"@, AttackType::RaidDamage, ms(0, 10), 0xd7219441_63dd_4f26_883f_753c97deb432, neldris_death_timer)]; }
    assert(views(v@) =~= acc);
    v.push(neldris_attack("Neldris DoT", AttackType::RotDamage, mm_ss(0, 19), 0xcad042d0_375c_409c_9a03_bdbe8f74adb1, neldris_death_timer));
    proof { acc = acc + seq![neldris_view("Neldris DoT"@, AttackType::RotDamage, ms(0, 19), 0xcad042d0_375c_409c_9a03_bdbe8f74adb1, neldris_death_timer)]; }
    assert(views(v@) =~= acc);
    v.push(neldris_attack("Neldris AoE", AttackType::RaidDamage, mm_ss(0, 40), 0x9dc58c41_18a7_45e8_8512_717ab7aeb64a, neldris_death_timer));
    proof { acc = acc + seq![neldris_view("Neldris AoE"@, AttackType::RaidDamage, ms(0, 40), 0x9dc58c41_18a7_45e8_8512_717ab7aeb64a, neldris_death_timer)]; }
    assert(views(v@) =~= acc);
    v.push(neldris_attack("Neldris DoT", AttackType::RotDamage, mm_ss(0, 56), 0xa1f2e377_0a2d_4f53_a95a_1ab73f58756f, neldris_death_timer));
    proof { acc = acc + seq![neldris_view("Neldris DoT"@, AttackType::RotDamage, ms(0, 56), 0xa1f2e377_0a2d_4f53_a95a_1ab73f58756f, neldris_death_timer)]; }
    assert(views(v@) =~= acc);
    v.push(neldris_attack("Neldris AoE", AttackType::RaidDamage, mm_ss(1, 5), 0x28db4ed7_1b96_4440_a659_c5d6ee5b8d43, neldris_death_timer));
    proof { acc = acc + seq![neldris_view("Neldris AoE"@, AttackType::RaidDamage, ms(1, 5), 0x28db4ed7_1b96_4440_a659_c5d6ee5b8d43, neldris_death_timer)]; }
    assert(views(v@) =~= acc);
    v.push(neldris_attack("Neldris DoT", AttackType::RotDamage, mm_ss(1, 14), 0x3a343809_279b_41a2_84b3_e0ba362c9028, neldris_death_timer));
    proof { acc = acc + seq![neldris_view("Neldris DoT"@, AttackType::RotDamage, ms(1, 14), 0x3a343809_279b_41a2_84b3_e0ba362c9028, neldris_death_timer)]; }
    assert(views(v@) =~= acc);
    v.push(neldris_attack("Neldris AoE", AttackType::RaidDamage, mm_ss(1, 35), 0x335cf3ff_f9cc_4bb1_9b05_2c62b9993b96, neldris_death_timer));
    proof { acc = acc + seq![neldris_view("Neldris AoE"@, AttackType::RaidDamage, ms(1, 35), 0x335cf3ff_f9cc_4bb1_9b05_2c62b9993b96, neldris_death_timer)]; }
    assert(views(v@) =~= acc);
    v.push(neldris_attack("Neldris DoT", AttackType::RotDamage, mm_ss(1, 51), 0xf6784738_2ff2_46db_8806_a4db81bf0c2e, neldris_death_timer));
    proof { acc = acc + seq![neldris_view("Neldris DoT"@, AttackType::RotDamage, ms(1, 51), 0xf6784738_2ff2_46db_8806_a4db81bf0c2e, neldris_death_timer)]; }
    assert(views(v@) =~= acc);
    v.push(neldris_attack("Neldris AoE", AttackType::RaidDamage, mm_ss(2, 0), 0xdae36a3e_2c7a_4bf8_bb0b_8355c2ce7f0e, neldris_death_timer));
    proof { acc = acc + seq![neldris_view("Neldris AoE"@, AttackType::RaidDamage, ms(2, 0), 0xdae36a3e_2c7a_4bf8_bb0b_8355c2ce7f0e, neldris_death_timer)]; }
    assert(views(v@) =~= acc);
    v.push(neldris_attack("Neldris DoT", AttackType::RotDamage, mm_ss(2, 9), 0xf27a5274_fa9a_4bc2_a15a_be94a8b09466, neldris_death_timer));
    proof { acc = acc + seq![neldris_view("Neldris DoT"@, AttackType::RotDamage, ms(2, 9), 0xf27a5274_fa9a_4bc2_a15a_be94a8b09466, neldris_death_timer)]; }
    assert(views(v@) =~= acc);
    v.push(neldris_attack("Neldris AoE", AttackType::RaidDamage, mm_ss(2, 30), 0x97d14315_bccd_4584_acf5_ad8996e9674b, neldris_death_timer));
    proof { acc = acc + seq![neldris_view("Neldris AoE"@, AttackType::RaidDamage, ms(2, 30), 0x97d14315_bccd_4584_acf5_ad8996e9674b, neldris_death_timer)]; }
    assert(views(v@) =~= acc);
    v.push(neldris_attack("Neldris DoT", AttackType::RotDamage, mm_ss(2, 46), 0x0587ea77_ba30_4510_ae53_b041216beecb, neldris_death_timer));
    proof { acc = acc + seq![neldris_view("Neldris DoT"@, AttackType::RotDamage, ms(2, 46), 0x0587ea77_ba30_4510_ae53_b041216beecb, neldris_death_timer)]; }
    assert(views(v@) =~= acc);
    v.push(neldris_attack("Neldris AoE", AttackType::RaidDamage, mm_ss(2, 55), 0xde5a8f91_2a69_4bf5_b0b5_02fca2c03c40, neldris_death_timer));
    proof { acc = acc + seq![neldris_view("Neldris AoE"@, AttackType::RaidDamage, ms(2, 55), 0xde5a8f91_2a69_4bf5_b0b5_02fca2c03c40, neldris_death_timer)]; }
    assert(views(v@) =~= acc);
    v.push(neldris_attack("Neldris DoT", AttackType::RotDamage, mm_ss(3, 3), 0xc4da13bb_b943_49f1_9e2d_1fa0281ecae9, neldris_death_timer));
    proof { acc = acc + seq![neldris_view("Neldris DoT"@, AttackType::RotDamage, ms(3, 3), 0xc4da13bb_b943_49f1_9e2d_1fa0281ecae9, neldris_death_timer)]; }
    assert(views(v@) =~= acc);
    assert(acc == neldris_attacks(neldris_death_timer));
    v
}

fn thadrion_list(thadrion_active_timer: i64, thadrion_death_timer: i64) -> (v: Vec<Attack>)
    requires
        0 <= thadrion_active_timer <= MAX_FIGHT_TIME,
        0 <= thadrion_death_timer <= MAX_FIGHT_TIME,
    ensures
        views(v@) == thadrion_attacks(thadrion_active_timer, thadrion_death_timer),
{
    let mut v: Vec<Attack> = Vec::new();
    push_thadrion_sequence(&mut v, mm_ss(1, 2), 0x20fbccbc_5682_48a4_b7a7_514fbb38b4b6, 0xf53e7b00_2a8c_4e86_9c2e_5e57348de062, 0xad31e027_9110_4d1b_8bea_6c4b65af7cc7, thadrion_active_timer, thadrion_death_timer);
    let ghost mut acc = thadrion_sequence_views(ms(1, 2), 0x20fbccbc_5682_48a4_b7a7_514fbb38b4b6, 0xf53e7b00_2a8c_4e86_9c2e_5e57348de062, 0xad31e027_9110_4d1b_8bea_6c4b65af7cc7, thadrion_active_timer, thadrion_death_timer);
    assert(views(v@) =~= acc);
    push_thadrion_sequence(&mut v, mm_ss(1, 57), 0x6002b9c7_56a1_4e64_84d6_826dd1de5d6d, 0x6385246a_68be_4598_ab61_4e576a5a0c63, 0xcb53aad8_e87c_4714_ae43_0ed103aea552, thadrion_active_timer, thadrion_death_timer);
    proof { acc = acc + thadrion_sequence_views(ms(1, 57), 0x6002b9c7_56a1_4e64_84d6_826dd1de5d6d, 0x6385246a_68be_4598_ab61_4e576a5a0c63, 0xcb53aad8_e87c_4714_ae43_0ed103aea552, thadrion_active_timer, thadrion_death_timer); }
    assert(views(v@) =~= acc);
    push_thadrion_sequence(&mut v, mm_ss(2, 52), 0x9c39859b_897e_4b8f_a50c_c901f79ccdce, 0xea82cec0_394f_4291_9a93_2bceb5185eef, 0xa235add9_c8f6_4825_b999_c57ec28f9420, thadrion_active_timer, thadrion_death_timer);
    proof { acc = acc + thadrion_sequence_views(ms(2, 52), 0x9c39859b_897e_4b8f_a50c_c901f79ccdce, 0xea82cec0_394f_4291_9a93_2bceb5185eef, 0xa235add9_c8f6_4825_b999_c57ec28f9420, thadrion_active_timer, thadrion_death_timer); }
    assert(views(v@) =~= acc);
    push_thadrion_sequence(&mut v, mm_ss(3, 48), 0x76e3c04c_437b_41cd_8149_6f9de775d336, 0x0df341c6_7b25_46b6_ba47_15231e2a61c4, 0x4633b90f_53ae_472c_baee_36d478049bad, thadrion_active_timer, thadrion_death_timer);
    proof { acc = acc + thadrion_sequence_views(ms(3, 48), 0x76e3c04c_437b_41cd_8149_6f9de775d336, 0x0df341c6_7b25_46b6_ba47_15231e2a61c4, 0x4633b90f_53ae_472c_baee_36d478049bad, thadrion_active_timer, thadrion_death_timer); }
    assert(views(v@) =~= acc);
    assert(acc == thadrion_attacks(thadrion_active_timer, thadrion_death_timer));
    v
}

fn rionthus_list(rionthus_active_timer: i64) -> (v: Vec<Attack>)
    requires
        0 <= rionthus_active_timer <= MAX_FIGHT_TIME,
    ensures
        views(v@) == rionthus_attacks(rionthus_active_timer),
{
    let mut v: Vec<Attack> = Vec::new();
    push_rionthus_sequence(&mut v, mm_ss(1, 58), 0xf28a2d05_4ce9_474f_a384_d1e8f7d47ef9, 0x1fbd25e1_a671_4106_8074_8cef5cbfa0ec, rionthus_active_timer);
    let ghost mut acc = rionthus_sequence_views(ms(1, 58), 0xf28a2d05_4ce9_474f_a384_d1e8f7d47ef9, 0x1fbd25e1_a671_4106_8074_8cef5cbfa0ec, rionthus_active_timer);
    assert(views(v@) =~= acc);
    push_rionthus_sequence(&mut v, mm_ss(2, 53), 0x3f28fec0_2d5d_4134_baef_4eef054fe054, 0x45a94b5d_dfbd_442a_9e23_a4cf2a0a6922, rionthus_active_timer);
    proof { acc = acc + rionthus_sequence_views(ms(2, 53), 0x3f28fec0_2d5d_4134_baef_4eef054fe054, 0x45a94b5d_dfbd_442a_9e23_a4cf2a0a6922, rionthus_active_timer); }
    assert(views(v@) =~= acc);
    push_rionthus_sequence(&mut v, mm_ss(3, 47), 0xef8c5624_422f_455c_8a87_98f7353add3c, 0x2431fa63_b149_4656_b006_e1368c07b691, rionthus_active_timer);
    proof { acc = acc + rionthus_sequence_views(ms(3, 47), 0xef8c5624_422f_455c_8a87_98f7353add3c, 0x2431fa63_b149_4656_b006_e1368c07b691, rionthus_active_timer); }
    assert(views(v@) =~= acc);
    push_rionthus_sequence(&mut v, mm_ss(4, 42), 0xa6475ee2_7e50_40f0_ad4b_86e6a0a2366d, 0x5ca55496_13b4_48c0_bc26_6d4f1fb5760e, rionthus_active_timer);
    proof { acc = acc + rionthus_sequence_views(ms(4, 42), 0xa6475ee2_7e50_40f0_ad4b_86e6a0a2366d, 0x5ca55496_13b4_48c0_bc26_6d4f1fb5760e, rionthus_active_timer); }
    assert(views(v@) =~= acc);
    push_rionthus_sequence(&mut v, mm_ss(5, 37), 0x13ef5daf_35c5_4fd0_838f_5a48d15d6c76, 0x6e6da0db_2dc2_4290_850a_6524c127fd82, rionthus_active_timer);
    proof { acc = acc + rionthus_sequence_views(ms(5, 37), 0x13ef5daf_35c5_4fd0_838f_5a48d15d6c76, 0x6e6da0db_2dc2_4290_850a_6524c127fd82, rionthus_active_timer); }
    assert(views(v@) =~= acc);
    push_rionthus_sequence(&mut v, mm_ss(6, 32), 0x1e7c4cc4_f45c_4f0d_8fba_efcc2e2f663b, 0x948f2fdf_6446_4b63_bd4a_8e26f57e9a6b, rionthus_active_timer);
    proof { acc = acc + rionthus_sequence_views(ms(6, 32), 0x1e7c4cc4_f45c_4f0d_8fba_efcc2e2f663b, 0x948f2fdf_6446_4b63_bd4a_8e26f57e9a6b, rionthus_active_timer); }
    assert(views(v@) =~= acc);
    push_rionthus_sequence(&mut v, mm_ss(7, 27), 0x14708860_f08e_4f70_ae4c_7fc0c2e56773, 0x0a4e5090_1472_45ca_9b2c_9fa9906b705b, rionthus_active_timer);
    proof { acc = acc + rionthus_sequence_views(ms(7, 27), 0x14708860_f08e_4f70_ae4c_7fc0c2e56773, 0x0a4e5090_1472_45ca_9b2c_9fa9906b705b, rionthus_active_timer); }
    assert(views(v@) =~= acc);
    assert(acc == rionthus_attacks(rionthus_active_timer));
    v
}

fn dispel_list(thadrion_active_timer: i64, thadrion_death_timer: i64) -> (v: Vec<Attack>)
    requires
        0 <= thadrion_active_timer <= MAX_FIGHT_TIME,
        0 <= thadrion_death_timer <= MAX_FIGHT_TIME,
    ensures
        views(v@) == dispel_attacks(thadrion_active_timer, thadrion_death_timer),
{
    let mut v: Vec<Attack> = Vec::new();
    v.push(first_dispel(0x57998b42_aeeb_47f2_9642_ee9e67ee572a, thadrion_active_timer, thadrion_death_timer));
    v.push(second_dispel(0xcdef54a2_29a4_49c9_a993_1b671668a778, thadrion_active_timer, thadrion_death_timer));
    let ghost mut acc = seq![first_dispel_view(0x57998b42_aeeb_47f2_9642_ee9e67ee572a, thadrion_active_timer, thadrion_death_timer), second_dispel_view(0xcdef54a2_29a4_49c9_a993_1b671668a778, thadrion_active_timer, thadrion_death_timer)];
    assert(views(v@) =~= acc);
    push_heal_dispel(&mut v, mm_ss(2, 7), true, 0xd37bbb30_cdbc_4842_9151_ad7e82245641, 0x24c2a50c_16f9_4f58_99be_b5f7a5f4eafb, thadrion_active_timer, thadrion_death_timer);
    proof { acc = acc + heal_dispel_views(ms(2, 7), true, 0xd37bbb30_cdbc_4842_9151_ad7e82245641, 0x24c2a50c_16f9_4f58_99be_b5f7a5f4eafb, thadrion_active_timer, thadrion_death_timer); }
    assert(views(v@) =~= acc);
    push_heal_dispel(&mut v, mm_ss(2, 35), true, 0x43bb4574_7bc1_4b42_a580_2aa030c2a5e9, 0x97eee688_bc27_48e5_87a4_4f60637137b1, thadrion_active_timer, thadrion_death_timer);
    proof { acc = acc + heal_dispel_views(ms(2, 35), true, 0x43bb4574_7bc1_4b42_a580_2aa030c2a5e9, 0x97eee688_bc27_48e5_87a4_4f60637137b1, thadrion_active_timer, thadrion_death_timer); }
    assert(views(v@) =~= acc);
    push_heal_dispel(&mut v, mm_ss(3, 2), false, 0xc7140b58_d03d_498a_bc16_d1e3c4c1de2c, 0xddab2e19_6470_4dd1_98d9_7b807c79fa7d, thadrion_active_timer, thadrion_death_timer);
    proof { acc = acc + heal_dispel_views(ms(3, 2), false, 0xc7140b58_d03d_498a_bc16_d1e3c4c1de2c, 0xddab2e19_6470_4dd1_98d9_7b807c79fa7d, thadrion_active_timer, thadrion_death_timer); }
    assert(views(v@) =~= acc);
    push_heal_dispel(&mut v, mm_ss(3, 31), false, 0x7bb29eb1_15b7_4be4_abfb_9d50ca147464, 0x26db457d_5db8_44ee_9c59_9aa2d8d57ed4, thadrion_active_timer, thadrion_death_timer);
    proof { acc = acc + heal_dispel_views(ms(3, 31), false, 0x7bb29eb1_15b7_4be4_abfb_9d50ca147464, 0x26db457d_5db8_44ee_9c59_9aa2d8d57ed4, thadrion_active_timer, thadrion_death_timer); }
    assert(views(v@) =~= acc);
    push_heal_dispel(&mut v, mm_ss(3, 54), false, 0xea004e51_1c11_4dce_afe0_3591c07d91c2, 0x953fffbd_9d02_4f07_97a5_81f37851ad3f, thadrion_active_timer, thadrion_death_timer);
    proof { acc = acc + heal_dispel_views(ms(3, 54), false, 0xea004e51_1c11_4dce_afe0_3591c07d91c2, 0x953fffbd_9d02_4f07_97a5_81f37851ad3f, thadrion_active_timer, thadrion_death_timer); }
    assert(views(v@) =~= acc);
    push_heal_dispel(&mut v, mm_ss(4, 22), false, 0xd3344292_d1f2_4ffb_bae3_a273defc39c8, 0x32ad9da5_84e8_4159_bbff_b4014e2b19dd, thadrion_active_timer, thadrion_death_timer);
    proof { acc = acc + heal_dispel_views(ms(4, 22), false, 0xd3344292_d1f2_4ffb_bae3_a273defc39c8, 0x32ad9da5_84e8_4159_bbff_b4014e2b19dd, thadrion_active_timer, thadrion_death_timer); }
    assert(views(v@) =~= acc);
    push_heal_dispel(&mut v, mm_ss(4, 51), false, 0x913ba9d2_b897_4ad2_9089_8b68e204c0cf, 0x9dfa4245_29c5_4012_94c7_294123d762de, thadrion_active_timer, thadrion_death_timer);
    proof { acc = acc + heal_dispel_views(ms(4, 51), false, 0x913ba9d2_b897_4ad2_9089_8b68e204c0cf, 0x9dfa4245_29c5_4012_94c7_294123d762de, thadrion_active_timer, thadrion_death_timer); }
    assert(views(v@) =~= acc);
    push_heal_dispel(&mut v, mm_ss(5, 17), false, 0x95caf4f4_4088_40ee_bf29_0807f2029282, 0xc696776e_5ebb_48d9_9e32_a88aae4cdf09, thadrion_active_timer, thadrion_death_timer);
    proof { acc = acc + heal_dispel_views(ms(5, 17), false, 0x95caf4f4_4088_40ee_bf29_0807f2029282, 0xc696776e_5ebb_48d9_9e32_a88aae4cdf09, thadrion_active_timer, thadrion_death_timer); }
    assert(views(v@) =~= acc);
    push_heal_dispel(&mut v, mm_ss(5, 43), false, 0xbeaa23d8_c0cf_419c_9e35_008a24dc4861, 0x7c01c237_6db8_4d45_99ee_af9b8a219c37, thadrion_active_timer, thadrion_death_timer);
    proof { acc = acc + heal_dispel_views(ms(5, 43), false, 0xbeaa23d8_c0cf_419c_9e35_008a24dc4861, 0x7c01c237_6db8_4d45_99ee_af9b8a219c37, thadrion_active_timer, thadrion_death_timer); }
    assert(views(v@) =~= acc);
    push_heal_dispel(&mut v, mm_ss(6, 9), false, 0x258e21ea_859d_4b60_bc00_1e4efa741040, 0x4a8d477c_9c29_4d64_a55f_eb93441badd5, thadrion_active_timer, thadrion_death_timer);
    proof { acc = acc + heal_dispel_views(ms(6, 9), false, 0x258e21ea_859d_4b60_bc00_1e4efa741040, 0x4a8d477c_9c29_4d64_a55f_eb93441badd5, thadrion_active_timer, thadrion_death_timer); }
    assert(views(v@) =~= acc);
    push_heal_dispel(&mut v, mm_ss(6, 35), false, 0xca113299_668f_4e70_b8de_4c57795e62c5, 0x1b1e805c_8506_4236_8b8c_4173ed0ccb66, thadrion_active_timer, thadrion_death_timer);
    proof { acc = acc + heal_dispel_views(ms(6, 35), false, 0xca113299_668f_4e70_b8de_4c57795e62c5, 0x1b1e805c_8506_4236_8b8c_4173ed0ccb66, thadrion_active_timer, thadrion_death_timer); }
    assert(views(v@) =~= acc);
    push_heal_dispel(&mut v, mm_ss(7, 1), false, 0xf49c6dd4_6ff1_4f37_a7c5_c7ca3e4909ed, 0x4fe3febb_e055_4830_8aec_66a7f9133eff, thadrion_active_timer, thadrion_death_timer);
    proof { acc = acc + heal_dispel_views(ms(7, 1), false, 0xf49c6dd4_6ff1_4f37_a7c5_c7ca3e4909ed, 0x4fe3febb_e055_4830_8aec_66a7f9133eff, thadrion_active_timer, thadrion_death_timer); }
    assert(views(v@) =~= acc);
    push_heal_dispel(&mut v, mm_ss(7, 27), false, 0x79544c8f_6daf_48d4_aed1_c070e5cc7787, 0xa42e41c0_876c_49ba_8da8_097b539a23c9, thadrion_active_timer, thadrion_death_timer);
    proof { acc = acc + heal_dispel_views(ms(7, 27), false, 0x79544c8f_6daf_48d4_aed1_c070e5cc7787, 0xa42e41c0_876c_49ba_8da8_097b539a23c9, thadrion_active_timer, thadrion_death_timer); }
    assert(views(v@) =~= acc);
    assert(acc == dispel_attacks(thadrion_active_timer, thadrion_death_timer));
    v
}

/// The fight's attacks for the times (in milliseconds since the pull) of Neldris's death,
/// The fight's timeline: Neldris's attacks up to its death, Thadrion's while it is
/// active, Rionthus's from its activation, and the heals and dispels; of these, those not
/// before the start of their own phase, ordered by time.
pub open spec fn experiments_views(neldris_death_timer: i64, thadrion_active_timer: i64, thadrion_death_timer: i64, rionthus_active_timer: i64) -> Seq<AttackView> {
    collect_views(sort_by_time(
        (neldris_attacks(neldris_death_timer).filter(window_view_pred(None, Some(neldris_death_timer as i128)))
            + thadrion_attacks(thadrion_active_timer, thadrion_death_timer).filter(window_view_pred(Some(thadrion_active_timer as i128), Some(thadrion_death_timer as i128)))
            + rionthus_attacks(rionthus_active_timer).filter(window_view_pred(Some(rionthus_active_timer as i128), None))
            + dispel_attacks(thadrion_active_timer, thadrion_death_timer)).filter(after_phase_start_view_pred()),
        view_time_fn(),
    ))
}

/// Thadrion's activation and death and Rionthus's activation: Neldris's attacks up to
/// its death, Thadrion's while it is active, Rionthus's from its activation, and the
/// heals and dispels; of these, those not before the start of their own phase, ordered
/// by time.
pub fn experiments_attacks(neldris_death_timer: i64, thadrion_active_timer: i64, thadrion_death_timer: i64, rionthus_active_timer: i64) -> (r: Lookup<Attack>)
    requires
        0 <= thadrion_active_timer <= MAX_FIGHT_TIME,
        0 <= thadrion_death_timer <= MAX_FIGHT_TIME,
        0 <= rionthus_active_timer <= MAX_FIGHT_TIME,
    ensures
        r.wf(),
        views(r@) == experiments_views(neldris_death_timer, thadrion_active_timer, thadrion_death_timer, rionthus_active_timer),
{
    let mut all = keep_within(neldris_list(neldris_death_timer), None, Some(neldris_death_timer as i128));
    let ghost a0 = views(all@);
    let mut thadrion = keep_within(thadrion_list(thadrion_active_timer, thadrion_death_timer), Some(thadrion_active_timer as i128), Some(thadrion_death_timer as i128));
    let ghost a1 = views(thadrion@);
    all.append(&mut thadrion);
    assert(views(all@) =~= a0 + a1);
    let mut rionthus = keep_within(rionthus_list(rionthus_active_timer), Some(rionthus_active_timer as i128), None);
    let ghost a2 = views(rionthus@);
    all.append(&mut rionthus);
    assert(views(all@) =~= a0 + a1 + a2);
    let mut dispels = dispel_list(thadrion_active_timer, thadrion_death_timer);
    let ghost a3 = views(dispels@);
    all.append(&mut dispels);
    assert(views(all@) =~= a0 + a1 + a2 + a3);
    let kept = keep_after_phase_start(all);
    into_timeline(kept)
}


/// The fight's parameters, in seconds since the pull: when Neldris dies, when Thadrion
/// becomes active and dies, and when Rionthus becomes active.
pub struct ExperimentsProps {
    pub neldris_death_timer: u64,
    pub thadrion_active_timer: u64,
    pub thadrion_death_timer: u64,
    pub rionthus_active_timer: u64,
}

impl ExperimentsProps {
    /// 2:00, 1:08, 3:20 and 2:15.
    pub fn new() -> (p: Self)
        ensures
            p.neldris_death_timer == 120,
            p.thadrion_active_timer == 68,
            p.thadrion_death_timer == 200,
            p.rionthus_active_timer == 135,
    {
        ExperimentsProps { neldris_death_timer: 120, thadrion_active_timer: 68, thadrion_death_timer: 200, rionthus_active_timer: 135 }
    }

    /// What each timer input accepts: Neldris's death freely, Thadrion active before
    /// his death, his death after he becomes active, Rionthus active after Thadrion.
    pub fn bounds(&self) -> (b: Vec<TimerBounds>)
        ensures
            b@ == seq![
                TimerBounds { min: None, max: None },
                TimerBounds { min: None, max: Some(self.thadrion_death_timer) },
                TimerBounds { min: Some(self.thadrion_active_timer), max: None },
                TimerBounds { min: Some(self.thadrion_active_timer), max: None },
            ],
    {
        let mut b: Vec<TimerBounds> = Vec::new();
        b.push(TimerBounds { min: None, max: None });
        b.push(TimerBounds { min: None, max: Some(self.thadrion_death_timer) });
        b.push(TimerBounds { min: Some(self.thadrion_active_timer), max: None });
        b.push(TimerBounds { min: Some(self.thadrion_active_timer), max: None });
        assert(b@ =~= seq![
            TimerBounds { min: None, max: None },
            TimerBounds { min: None, max: Some(self.thadrion_death_timer) },
            TimerBounds { min: Some(self.thadrion_active_timer), max: None },
            TimerBounds { min: Some(self.thadrion_active_timer), max: None },
        ]);
        b
    }

    /// The attacks for these parameters.
    pub fn attacks(&self) -> (r: Lookup<Attack>)
        requires
            self.neldris_death_timer < MAX_TIMER_SECONDS,
            self.thadrion_active_timer < MAX_TIMER_SECONDS,
            self.thadrion_death_timer < MAX_TIMER_SECONDS,
            self.rionthus_active_timer < MAX_TIMER_SECONDS,
        ensures
            r.wf(),
            views(r@) == experiments_views((self.neldris_death_timer * 1000) as i64, (self.thadrion_active_timer * 1000) as i64,
                (self.thadrion_death_timer * 1000) as i64, (self.rionthus_active_timer * 1000) as i64),
    {
        experiments_attacks(seconds_to_ms(self.neldris_death_timer), seconds_to_ms(self.thadrion_active_timer),
            seconds_to_ms(self.thadrion_death_timer), seconds_to_ms(self.rionthus_active_timer))
    }
}

/// The mythic fight against the Forgotten Experiments, with its default parameters.
pub fn mythic(encounter_id: u64, encounter_name: LocalizedString) -> (f: UiFight)
    ensures
        f.encounter_id == encounter_id,
        f.encounter_name == encounter_name,
        f.image_path@ == "boss/experiments.png"@,
        f.image_offset == 20,
        f.attacks.wf(),
        views(f.attacks@) == experiments_views(120000, 68000, 200000, 135000),
{
    let props = ExperimentsProps::new();
    UiFight::new(encounter_id, encounter_name, string_of("boss/experiments.png"), 20, props.attacks())
}


/// Where Neldris dies changes none of its attacks' uuids or times.
proof fn lemma_neldris_agree(d1: i64, d2: i64, i: int)
    requires
        0 <= i < neldris_attacks(d1).len(),
    ensures
        neldris_attacks(d1).len() == neldris_attacks(d2).len(),
        neldris_attacks(d1)[i].uuid == neldris_attacks(d2)[i].uuid,
        neldris_attacks(d1)[i].timer.dynamic_timer == neldris_attacks(d2)[i].timer.dynamic_timer,
        neldris_attacks(d1)[i].timer.phase_start == neldris_attacks(d2)[i].timer.phase_start,
{
}

/// The uuid is one of Neldris's attacks (the opening marker among them).
pub open spec fn is_neldris_uuid(u: u128) -> bool {
    exists|i: int| 0 <= i < neldris_attacks(0).len() && #[trigger] neldris_attacks(0)[i].uuid == u
}

/// The part of the timeline that does not depend on when Neldris dies.
spec fn others(ta: i64, td: i64, ra: i64) -> Seq<AttackView> {
    thadrion_attacks(ta, td).filter(window_view_pred(Some(ta as i128), Some(td as i128)))
        + rionthus_attacks(ra).filter(window_view_pred(Some(ra as i128), None))
        + dispel_attacks(ta, td)
}

/// A uuid is in the timeline exactly when it is kept of Neldris's attacks or of the others.
proof fn lemma_experiments_uuid(d: i64, ta: i64, td: i64, ra: i64, u: u128)
    ensures
        view_has_uuid(experiments_views(d, ta, td, ra), u) <==> (
            (exists|i: int| 0 <= i < neldris_attacks(d).len() && #[trigger] neldris_attacks(d)[i].uuid == u
                && window_view_pred(None, Some(d as i128))(neldris_attacks(d)[i])
                && after_phase_start_view_pred()(neldris_attacks(d)[i]))
            || view_has_uuid(others(ta, td, ra).filter(after_phase_start_view_pred()), u)),
{
    broadcast use Seq::filter_distributes_over_add;
    let a = neldris_attacks(d).filter(window_view_pred(None, Some(d as i128)));
    let o = others(ta, td, ra);
    let after = after_phase_start_view_pred();
    let all = (a + thadrion_attacks(ta, td).filter(window_view_pred(Some(ta as i128), Some(td as i128)))
        + rionthus_attacks(ra).filter(window_view_pred(Some(ra as i128), None))
        + dispel_attacks(ta, td));
    assert(all =~= a + o);
    lemma_collect_views_uuid(sort_by_time(all.filter(after), view_time_fn()), u);
    lemma_sort_uuid(all.filter(after), u);
    assert(all.filter(after) == a.filter(after) + o.filter(after));
    lemma_concat_uuid(a.filter(after), o.filter(after), u);
    lemma_filter_filter(neldris_attacks(d), window_view_pred(None, Some(d as i128)), after);
    let both = |x: AttackView| window_view_pred(None, Some(d as i128))(x) && after(x);
    lemma_filter_uuid(neldris_attacks(d), both, u);
}

/// Neldris dying later only adds Neldris's attacks: every Neldris attack of the earlier
/// timeline stays, and the other attacks are the same in both.
pub proof fn law_later_neldris_death(d1: i64, d2: i64, ta: i64, td: i64, ra: i64, u: u128)
    requires
        d1 <= d2,
    ensures
        is_neldris_uuid(u) && view_has_uuid(experiments_views(d1, ta, td, ra), u)
            ==> view_has_uuid(experiments_views(d2, ta, td, ra), u),
        !is_neldris_uuid(u) ==> (view_has_uuid(experiments_views(d1, ta, td, ra), u)
            <==> view_has_uuid(experiments_views(d2, ta, td, ra), u)),
{
    lemma_experiments_uuid(d1, ta, td, ra, u);
    lemma_experiments_uuid(d2, ta, td, ra, u);
    let n1 = neldris_attacks(d1);
    let n2 = neldris_attacks(d2);
    if exists|i: int| 0 <= i < n1.len() && #[trigger] n1[i].uuid == u
        && window_view_pred(None, Some(d1 as i128))(n1[i]) && after_phase_start_view_pred()(n1[i]) {
        let i = choose|i: int| 0 <= i < n1.len() && #[trigger] n1[i].uuid == u
            && window_view_pred(None, Some(d1 as i128))(n1[i]) && after_phase_start_view_pred()(n1[i]);
        lemma_neldris_agree(d1, d2, i);
        lemma_neldris_agree(d1, 0, i);
        assert(view_time(n1[i]) == view_time(n2[i]));
        assert(window_view_pred(None, Some(d2 as i128))(n2[i]));
        assert(after_phase_start_view_pred()(n2[i]));
        assert(n2[i].uuid == u);
        assert(neldris_attacks(0)[i].uuid == u);
    }
    if exists|i: int| 0 <= i < n2.len() && #[trigger] n2[i].uuid == u
        && window_view_pred(None, Some(d2 as i128))(n2[i]) && after_phase_start_view_pred()(n2[i]) {
        let i = choose|i: int| 0 <= i < n2.len() && #[trigger] n2[i].uuid == u
            && window_view_pred(None, Some(d2 as i128))(n2[i]) && after_phase_start_view_pred()(n2[i]);
        lemma_neldris_agree(d2, 0, i);
        assert(neldris_attacks(0)[i].uuid == u);
    }
}

/// Every attack the fight lists, before the phases keep or drop any.
pub open spec fn experiments_listing(neldris_death_timer: i64, thadrion_active_timer: i64, thadrion_death_timer: i64, rionthus_active_timer: i64) -> Seq<AttackView> {
    neldris_attacks(neldris_death_timer) + thadrion_attacks(thadrion_active_timer, thadrion_death_timer)
        + rionthus_attacks(rionthus_active_timer) + dispel_attacks(thadrion_active_timer, thadrion_death_timer)
}

proof fn lemma_thadrion_agree(ta1: i64, td1: i64, ta2: i64, td2: i64, i: int)
    requires
        0 <= ta1 <= MAX_FIGHT_TIME,
        0 <= ta2 <= MAX_FIGHT_TIME,
        0 <= i < thadrion_attacks(ta1, td1).len(),
    ensures
        thadrion_attacks(ta1, td1).len() == thadrion_attacks(ta2, td2).len(),
        thadrion_attacks(ta1, td1)[i].uuid == thadrion_attacks(ta2, td2)[i].uuid,
        view_time(thadrion_attacks(ta1, td1)[i]) == view_time(thadrion_attacks(ta2, td2)[i]),
{
}

proof fn lemma_rionthus_agree(ra1: i64, ra2: i64, i: int)
    requires
        0 <= ra1 <= MAX_FIGHT_TIME,
        0 <= ra2 <= MAX_FIGHT_TIME,
        0 <= i < rionthus_attacks(ra1).len(),
    ensures
        rionthus_attacks(ra1).len() == rionthus_attacks(ra2).len(),
        rionthus_attacks(ra1)[i].uuid == rionthus_attacks(ra2)[i].uuid,
        view_time(rionthus_attacks(ra1)[i]) == view_time(rionthus_attacks(ra2)[i]),
{
}

proof fn lemma_dispel_agree(ta1: i64, td1: i64, ta2: i64, td2: i64, i: int)
    requires
        0 <= ta1 <= MAX_FIGHT_TIME,
        0 <= ta2 <= MAX_FIGHT_TIME,
        0 <= i < dispel_attacks(ta1, td1).len(),
    ensures
        dispel_attacks(ta1, td1).len() == dispel_attacks(ta2, td2).len(),
        dispel_attacks(ta1, td1)[i].uuid == dispel_attacks(ta2, td2)[i].uuid,
        view_time(dispel_attacks(ta1, td1)[i]) == view_time(dispel_attacks(ta2, td2)[i]),
{
}

/// The listing does not depend on the phase timers for its uuids and times.
proof fn lemma_listing_agree(n1: i64, ta1: i64, td1: i64, ra1: i64, n2: i64, ta2: i64, td2: i64, ra2: i64, k: int)
    requires
        0 <= ta1 <= MAX_FIGHT_TIME,
        0 <= ra1 <= MAX_FIGHT_TIME,
        0 <= ta2 <= MAX_FIGHT_TIME,
        0 <= ra2 <= MAX_FIGHT_TIME,
        0 <= k < experiments_listing(n1, ta1, td1, ra1).len(),
    ensures
        experiments_listing(n1, ta1, td1, ra1).len() == experiments_listing(n2, ta2, td2, ra2).len(),
        experiments_listing(n1, ta1, td1, ra1)[k].uuid == experiments_listing(n2, ta2, td2, ra2)[k].uuid,
        view_time(experiments_listing(n1, ta1, td1, ra1)[k]) == view_time(experiments_listing(n2, ta2, td2, ra2)[k]),
{
    let (n_1, t_1, r_1, d_1) = (neldris_attacks(n1), thadrion_attacks(ta1, td1), rionthus_attacks(ra1), dispel_attacks(ta1, td1));
    let (n_2, t_2, r_2, d_2) = (neldris_attacks(n2), thadrion_attacks(ta2, td2), rionthus_attacks(ra2), dispel_attacks(ta2, td2));
    lemma_neldris_agree(n1, n2, 0);
    lemma_thadrion_agree(ta1, td1, ta2, td2, 0);
    lemma_rionthus_agree(ra1, ra2, 0);
    lemma_dispel_agree(ta1, td1, ta2, td2, 0);
    let l1 = experiments_listing(n1, ta1, td1, ra1);
    let l2 = experiments_listing(n2, ta2, td2, ra2);
    let a = n_1.len() as int;
    let b = a + t_1.len();
    let c = b + r_1.len();
    if k < a {
        lemma_neldris_agree(n1, n2, k);
        assert(l1[k] == n_1[k] && l2[k] == n_2[k]);
    } else if k < b {
        lemma_thadrion_agree(ta1, td1, ta2, td2, k - a);
        assert(l1[k] == t_1[k - a] && l2[k] == t_2[k - a]);
    } else if k < c {
        lemma_rionthus_agree(ra1, ra2, k - b);
        assert(l1[k] == r_1[k - b] && l2[k] == r_2[k - b]);
    } else {
        lemma_dispel_agree(ta1, td1, ta2, td2, k - c);
        assert(l1[k] == d_1[k - c] && l2[k] == d_2[k - c]);
    }
}

/// Every attack of the timeline is one the fight lists.
proof fn lemma_timeline_from_listing(n: i64, ta: i64, td: i64, ra: i64, x: AttackView)
    requires
        experiments_views(n, ta, td, ra).contains(x),
    ensures
        exists|k: int| 0 <= k < experiments_listing(n, ta, td, ra).len() && #[trigger] experiments_listing(n, ta, td, ra)[k] == x,
{
    let nn = neldris_attacks(n);
    let tt = thadrion_attacks(ta, td);
    let rr = rionthus_attacks(ra);
    let dd = dispel_attacks(ta, td);
    let wn = window_view_pred(None, Some(n as i128));
    let wt = window_view_pred(Some(ta as i128), Some(td as i128));
    let wr = window_view_pred(Some(ra as i128), None);
    let e = nn.filter(wn) + tt.filter(wt) + rr.filter(wr) + dd;
    let f = e.filter(after_phase_start_view_pred());
    let srt = sort_by_time(f, view_time_fn());
    lemma_collect_views_members(srt);
    lemma_sort_members(f);
    lemma_filter_members(e, after_phase_start_view_pred());
    lemma_filter_members(nn, wn);
    lemma_filter_members(tt, wt);
    lemma_filter_members(rr, wr);
    let v = experiments_views(n, ta, td, ra);
    let i = choose|i: int| 0 <= i < v.len() && v[i] == x;
    assert(srt.contains(v[i]));
    let i2 = choose|j: int| 0 <= j < srt.len() && srt[j] == x;
    assert(f.contains(srt[i2]));
    let i3 = choose|j: int| 0 <= j < f.len() && f[j] == x;
    assert(e.contains(f[i3]));
    let j = choose|j: int| 0 <= j < e.len() && e[j] == x;
    let l = experiments_listing(n, ta, td, ra);
    let a = nn.filter(wn).len() as int;
    let b = a + tt.filter(wt).len();
    let c = b + rr.filter(wr).len();
    if j < a {
        assert(nn.filter(wn)[j] == x);
        assert(nn.contains(nn.filter(wn)[j]));
        let m = choose|m: int| 0 <= m < nn.len() && nn[m] == x;
        assert(l[m] == x);
    } else if j < b {
        assert(tt.filter(wt)[j - a] == x);
        assert(tt.contains(tt.filter(wt)[j - a]));
        let m = choose|m: int| 0 <= m < tt.len() && tt[m] == x;
        assert(l[nn.len() + m] == x);
    } else if j < c {
        assert(rr.filter(wr)[j - b] == x);
        assert(rr.contains(rr.filter(wr)[j - b]));
        let m = choose|m: int| 0 <= m < rr.len() && rr[m] == x;
        assert(l[nn.len() + tt.len() + m] == x);
    } else {
        assert(dd[j - c] == x);
        assert(l[nn.len() + tt.len() + rr.len() + (j - c)] == x);
    }
}

/// Every attack keeps the time at which the fight lists it, whatever the phase timers:
/// an attack of the timeline is one the fight lists, and under any other timers the
/// attack listed at that place has the same uuid and comes at the same time since the
/// pull (a phased attack counts from its phase's start so that the two add up to the
/// listed time).
pub proof fn law_listed_times_kept(n1: i64, ta1: i64, td1: i64, ra1: i64, n2: i64, ta2: i64, td2: i64, ra2: i64, x: AttackView)
    requires
        0 <= ta1 <= MAX_FIGHT_TIME,
        0 <= ra1 <= MAX_FIGHT_TIME,
        0 <= ta2 <= MAX_FIGHT_TIME,
        0 <= ra2 <= MAX_FIGHT_TIME,
        experiments_views(n1, ta1, td1, ra1).contains(x),
    ensures
        exists|k: int| 0 <= k < experiments_listing(n1, ta1, td1, ra1).len()
            && #[trigger] experiments_listing(n1, ta1, td1, ra1)[k] == x
            && experiments_listing(n2, ta2, td2, ra2)[k].uuid == x.uuid
            && view_time(experiments_listing(n2, ta2, td2, ra2)[k]) == view_time(x),
{
    lemma_timeline_from_listing(n1, ta1, td1, ra1, x);
    let k = choose|k: int| 0 <= k < experiments_listing(n1, ta1, td1, ra1).len() && #[trigger] experiments_listing(n1, ta1, td1, ra1)[k] == x;
    lemma_listing_agree(n1, ta1, td1, ra1, n2, ta2, td2, ra2, k);
}
} // verus!
