//! Kazzara, the Hellforged (mythic): three health-percentage AoEs and a row of knockback AoEs.
use vstd::prelude::*;
use crate::domain::{Attack, AttackView, AttackTimer, AttackType, CleuEvent, CleuEventType, ms, mm_ss};
use crate::lookup::Lookup;
use crate::fights::timeline::{views, on_pull, on_pull_view, make_attack, into_timeline, collect_views, sort_by_time, view_time_fn, simple_timer, POWER_ONE};
use crate::text::string_of;

use crate::domain::LocalizedString;
use crate::ui_fight::UiFight;
use crate::fights::timeline::{TimerBounds, MAX_TIMER_SECONDS, seconds_to_ms};

verus! {

/// The AoE at a health threshold: three seconds after the threshold is reached.
pub open spec fn hp_aoe_view(uuid: u128, name: Seq<char>, phase_start: i64, event: u64) -> AttackView {
    AttackView {
        uuid,
        name,
        power: POWER_ONE,
        attack_type: AttackType::RaidDamage,
        timer: AttackTimer {
            dynamic_timer: Some(3000),
            phase_start: Some(phase_start),
            phase_end: None,
            dynamic_trigger_cleu_event: Some(CleuEvent { event_type: CleuEventType::SpellCastStart, event, counter: 1 }),
        },
    }
}

pub open spec fn knock_aoe_view(uuid: u128, timer: i64) -> AttackView {
    AttackView { uuid, name: "Knock AoE"@, power: POWER_ONE, attack_type: AttackType::RaidDamage, timer: simple_timer(timer) }
}

fn hp_aoe(uuid: u128, name: &str, phase_start: i64, event: u64) -> (a: Attack)
    ensures
        a@ == hp_aoe_view(uuid, name@, phase_start, event),
{
    make_attack(uuid, string_of(name), POWER_ONE, AttackType::RaidDamage, AttackTimer {
        dynamic_timer: Some(3000),
        phase_start: Some(phase_start),
        phase_end: None,
        dynamic_trigger_cleu_event: Some(CleuEvent { event_type: CleuEventType::SpellCastStart, event, counter: 1 }),
    })
}

fn knock_aoe(uuid: u128, timer: i64) -> (a: Attack)
    ensures
        a@ == knock_aoe_view(uuid, timer),
{
    make_attack(uuid, string_of("Knock AoE"), POWER_ONE, AttackType::RaidDamage, AttackTimer::timed(timer))
}

/// Every attack of the fight, in the order in which the fight lists them.
pub open spec fn kazzara_candidates(eighty_percent_timer: i64, sixty_percent_timer: i64, forty_percent_timer: i64) -> Seq<AttackView> {
    seq![
        on_pull_view(0x755af363_d688_4147_9e30_7bf0f9bf00f9),
        hp_aoe_view(0x53d6e795_e1d1_4f79_a250_e2bfe07abbbd, "80% HP AoE"@, eighty_percent_timer, 401316),
        hp_aoe_view(0xfdc9c894_985f_4758_81d9_abf2280d5398, "60% HP AoE"@, sixty_percent_timer, 401318),
        hp_aoe_view(0xf15d1724_2a77_4238_9f73_97849121afd6, "40% HP AoE"@, forty_percent_timer, 401319),
        knock_aoe_view(0xec9bdd6b_ec2f_499a_9415_0ae043f20465, ms(0, 17)),
        knock_aoe_view(0xa8f9b2e4_22f5_499f_b157_683514383e04, ms(0, 51)),
        knock_aoe_view(0x8623ff4f_7669_4922_8ec9_55d1d4849260, ms(1, 34)),
        knock_aoe_view(0x0c09b21c_355f_424f_abb0_17022cbd0b3f, ms(2, 18)),
        knock_aoe_view(0x99010925_0e6d_4c5f_9d84_4389b3b2eef5, ms(2, 52)),
        knock_aoe_view(0x3692b1b9_3869_45e6_90c8_82846f55d987, ms(3, 36)),
        knock_aoe_view(0x73abc776_e9d5_489c_a638_066a1498725b, ms(4, 10)),
        knock_aoe_view(0x6fc7f880_9614_498f_839f_3c197adcf192, ms(4, 44)),
        knock_aoe_view(0xca447563_ef8d_4ef8_b091_cb6f5f980243, ms(4, 51)),
        knock_aoe_view(0x7e9c58e8_7b95_4022_9feb_5fc9c0ad97f3, ms(5, 27)),
        knock_aoe_view(0xb247bd61_ff11_4960_a701_dfe3e5bf52e8, ms(6, 4)),
    ]
}

/// The fight's attacks for the times at which the boss reaches 80%, 60% and 40% of its
/// health (in milliseconds since the pull), ordered by time.
pub fn kazzara_attacks(eighty_percent_timer: i64, sixty_percent_timer: i64, forty_percent_timer: i64) -> (r: Lookup<Attack>)
    ensures
        r.wf(),
        views(r@) == collect_views(sort_by_time(kazzara_candidates(eighty_percent_timer, sixty_percent_timer, forty_percent_timer), view_time_fn())),
{
    let mut v: Vec<Attack> = Vec::new();
    v.push(on_pull(0x755af363_d688_4147_9e30_7bf0f9bf00f9));
    v.push(hp_aoe(0x53d6e795_e1d1_4f79_a250_e2bfe07abbbd, "80% HP AoE", eighty_percent_timer, 401316));
    v.push(hp_aoe(0xfdc9c894_985f_4758_81d9_abf2280d5398, "60% HP AoE", sixty_percent_timer, 401318));
    v.push(hp_aoe(0xf15d1724_2a77_4238_9f73_97849121afd6, "40% HP AoE", forty_percent_timer, 401319));
    v.push(knock_aoe(0xec9bdd6b_ec2f_499a_9415_0ae043f20465, mm_ss(0, 17)));
    v.push(knock_aoe(0xa8f9b2e4_22f5_499f_b157_683514383e04, mm_ss(0, 51)));
    v.push(knock_aoe(0x8623ff4f_7669_4922_8ec9_55d1d4849260, mm_ss(1, 34)));
    v.push(knock_aoe(0x0c09b21c_355f_424f_abb0_17022cbd0b3f, mm_ss(2, 18)));
    v.push(knock_aoe(0x99010925_0e6d_4c5f_9d84_4389b3b2eef5, mm_ss(2, 52)));
    v.push(knock_aoe(0x3692b1b9_3869_45e6_90c8_82846f55d987, mm_ss(3, 36)));
    v.push(knock_aoe(0x73abc776_e9d5_489c_a638_066a1498725b, mm_ss(4, 10)));
    v.push(knock_aoe(0x6fc7f880_9614_498f_839f_3c197adcf192, mm_ss(4, 44)));
    v.push(knock_aoe(0xca447563_ef8d_4ef8_b091_cb6f5f980243, mm_ss(4, 51)));
    v.push(knock_aoe(0x7e9c58e8_7b95_4022_9feb_5fc9c0ad97f3, mm_ss(5, 27)));
    v.push(knock_aoe(0xb247bd61_ff11_4960_a701_dfe3e5bf52e8, mm_ss(6, 4)));
    assert(views(v@) =~= kazzara_candidates(eighty_percent_timer, sixty_percent_timer, forty_percent_timer));
    into_timeline(v)
}


/// The fight's parameters, in seconds since the pull: when the boss reaches 80%, 60%
/// and 40% of its health.
pub struct KazzaraProps {
    pub eighty_percent_timer: u64,
    pub sixty_percent_timer: u64,
    pub forty_percent_timer: u64,
}

impl KazzaraProps {
    /// 1:20, 2:00 and 3:00.
    pub fn new() -> (p: Self)
        ensures
            p.eighty_percent_timer == 80,
            p.sixty_percent_timer == 120,
            p.forty_percent_timer == 180,
    {
        KazzaraProps { eighty_percent_timer: 80, sixty_percent_timer: 120, forty_percent_timer: 180 }
    }

    /// What each timer input accepts: 80% before 60%, 60% between 80% and 40%, 40% after 60%.
    pub fn bounds(&self) -> (b: Vec<TimerBounds>)
        ensures
            b@ == seq![
                TimerBounds { min: None, max: Some(self.sixty_percent_timer) },
                TimerBounds { min: Some(self.eighty_percent_timer), max: Some(self.forty_percent_timer) },
                TimerBounds { min: Some(self.sixty_percent_timer), max: None },
            ],
    {
        let mut b: Vec<TimerBounds> = Vec::new();
        b.push(TimerBounds { min: None, max: Some(self.sixty_percent_timer) });
        b.push(TimerBounds { min: Some(self.eighty_percent_timer), max: Some(self.forty_percent_timer) });
        b.push(TimerBounds { min: Some(self.sixty_percent_timer), max: None });
        assert(b@ =~= seq![
            TimerBounds { min: None, max: Some(self.sixty_percent_timer) },
            TimerBounds { min: Some(self.eighty_percent_timer), max: Some(self.forty_percent_timer) },
            TimerBounds { min: Some(self.sixty_percent_timer), max: None },
        ]);
        b
    }

    /// The attacks for these parameters.
    pub fn attacks(&self) -> (r: Lookup<Attack>)
        requires
            self.eighty_percent_timer < MAX_TIMER_SECONDS,
            self.sixty_percent_timer < MAX_TIMER_SECONDS,
            self.forty_percent_timer < MAX_TIMER_SECONDS,
        ensures
            r.wf(),
            views(r@) == collect_views(sort_by_time(kazzara_candidates(
                (self.eighty_percent_timer * 1000) as i64, (self.sixty_percent_timer * 1000) as i64,
                (self.forty_percent_timer * 1000) as i64), view_time_fn())),
    {
        kazzara_attacks(seconds_to_ms(self.eighty_percent_timer), seconds_to_ms(self.sixty_percent_timer), seconds_to_ms(self.forty_percent_timer))
    }
}

/// The mythic fight against Kazzara, with its default parameters.
pub fn mythic(encounter_id: u64, encounter_name: LocalizedString) -> (f: UiFight)
    ensures
        f.encounter_id == encounter_id,
        f.encounter_name == encounter_name,
        f.image_path@ == "boss/kazzara.png"@,
        f.image_offset == 40,
        f.attacks.wf(),
        views(f.attacks@) == collect_views(sort_by_time(kazzara_candidates(80000, 120000, 180000), view_time_fn())),
{
    let props = KazzaraProps::new();
    UiFight::new(encounter_id, encounter_name, string_of("boss/kazzara.png"), 40, props.attacks())
}

} // verus!
