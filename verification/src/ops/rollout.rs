//! Staged rollout of a published configuration version: stage validation
//! and the sequential activation of stages.
use vstd::prelude::*;

use crate::text::text;

use crate::error::AppError;
use crate::text::{chars_of, decimal, decimal_i64, decimal_int, push_chars, push_str, str_eq, string_of};

verus! {

broadcast use {vstd::string::group_string_axioms, vstd::slice::group_slice_axioms};


/// One requested stage: the share of depots it brings the rollout to, and
/// its depots.  Times are Unix seconds.
pub struct RolloutStageSpec {
    pub target_percentage: i16,
    pub depot_ids: Vec<u128>,
    pub scheduled_at: Option<i64>,
}

/// The first problem with a list of stages: none at all, a stage without
/// depots, or a percentage that does not strictly increase (starting above
/// 0); `None` when the list is acceptable.
pub open spec fn stages_problem(stages: Seq<RolloutStageSpec>, k: nat, last_pct: int) -> Option<Seq<char>>
    decreases stages.len() - k,
{
    if k >= stages.len() {
        None
    } else if stages[k as int].depot_ids@.len() == 0 {
        Some("Stage "@ + decimal(k + 1) + " has no depot_ids"@)
    } else if stages[k as int].target_percentage <= last_pct {
        Some("Stages must have strictly increasing target_percentage values"@)
    } else {
        stages_problem(stages, k + 1, stages[k as int].target_percentage as int)
    }
}

/// Check a requested list of stages.
pub fn validate_rollout_stages(stages: &Vec<RolloutStageSpec>) -> (r: Result<(), String>)
    ensures
        stages@.len() == 0 ==> (r matches Err(m) && m@ == "At least one stage is required"@),
        stages@.len() > 0 ==> match stages_problem(stages@, 0, 0) {
            None => r is Ok,
            Some(p) => r matches Err(m) && m@ == p,
        },
{
    if stages.len() == 0 {
        return Err(text("At least one stage is required"));
    }
    let mut last_pct: i16 = 0;
    let mut i: usize = 0;
    while i < stages.len()
        invariant
            i <= stages@.len(),
            stages_problem(stages@, 0, 0) == stages_problem(stages@, i as nat, last_pct as int),
        decreases stages.len() - i,
    {
        let stage = &stages[i];
        if stage.depot_ids.len() == 0 {
            let mut m: Vec<char> = Vec::new();
            push_str(&mut m, "Stage ");
            let n = crate::text::decimal_u128(i as u128 + 1);
            push_chars(&mut m, n.as_slice());
            push_str(&mut m, " has no depot_ids");
            return Err(string_of(m.as_slice()));
        }
        if stage.target_percentage <= last_pct {
            return Err(text("Stages must have strictly increasing target_percentage values"));
        }
        last_pct = stage.target_percentage;
        i = i + 1;
    }
    Ok(())
}

proof fn lemma_stages_accepted_from(stages: Seq<RolloutStageSpec>, k: nat, last: int)
    requires
        k <= stages.len(),
    ensures
        stages_problem(stages, k, last) is None <==> {
            &&& forall|i: int| k <= i < stages.len() ==> (#[trigger] stages[i]).depot_ids@.len() > 0
            &&& k < stages.len() ==> stages[k as int].target_percentage > last
            &&& forall|i: int, j: int|
                #![trigger stages[i], stages[j]]
                k <= i < j < stages.len() ==> stages[i].target_percentage < stages[j].target_percentage
        },
    decreases stages.len() - k,
{
    if k < stages.len() {
        lemma_stages_accepted_from(stages, k + 1, stages[k as int].target_percentage as int);
        if stages_problem(stages, k, last) is None {
            assert forall|i: int, j: int|
                #![trigger stages[i], stages[j]]
                k <= i < j < stages.len() implies stages[i].target_percentage < stages[j].target_percentage by {
                if i == k && j > k + 1 {
                    assert(stages[k + 1int].target_percentage < stages[j].target_percentage);
                }
            }
        }
        if k + 1 < stages.len() {
            // the stage and the next one, so that the ordering facts about
            // the pair apply
            assert(stages[k as int].target_percentage >= i16::MIN && stages[k + 1int].target_percentage >= i16::MIN);
        }
    }
}

/// A list of stages passes validation exactly when it is not empty, every
/// stage has depots, the first percentage is above 0 and each percentage is
/// above every one before it: a decreasing or repeated percentage is always
/// refused.
pub proof fn law_accepted_stages_strictly_increase(stages: Seq<RolloutStageSpec>)
    ensures
        (stages.len() > 0 && stages_problem(stages, 0, 0) is None) <==> {
            &&& stages.len() > 0
            &&& forall|i: int| 0 <= i < stages.len() ==> (#[trigger] stages[i]).depot_ids@.len() > 0
            &&& stages[0].target_percentage > 0
            &&& forall|i: int, j: int|
                #![trigger stages[i], stages[j]]
                0 <= i < j < stages.len() ==> stages[i].target_percentage < stages[j].target_percentage
        },
{
    lemma_stages_accepted_from(stages, 0, 0);
}

/// Number of depots over all stages.
pub open spec fn depot_total(stages: Seq<RolloutStageSpec>) -> int
    decreases stages.len(),
{
    if stages.len() == 0 { 0 } else { depot_total(stages.drop_last()) + stages.last().depot_ids@.len() }
}

/// Number of depots a plan covers.
pub fn total_depots(stages: &Vec<RolloutStageSpec>) -> (r: u128)
    ensures
        r == depot_total(stages@),
{
    let mut total: u128 = 0;
    let mut i: usize = 0;
    while i < stages.len()
        invariant
            i <= stages@.len(),
            total == depot_total(stages@.take(i as int)),
            total <= i * 0x1_0000_0000_0000_0000,
        decreases stages.len() - i,
    {
        assert(stages@.take(i + 1).drop_last() =~= stages@.take(i as int));
        assert(stages@.take(i + 1).last() == stages@[i as int]);
        total = total + stages[i].depot_ids.len() as u128;
        i = i + 1;
    }
    assert(stages@.take(i as int) =~= stages@);
    total
}

/// A rollout needs the version to be published.
pub fn check_version_published(status: Option<&str>) -> (r: Result<(), AppError>)
    ensures
        match status {
            Some(s) => if s@ == "published"@ {
                r is Ok
            } else {
                r matches Err(AppError::BadRequest(m))
                    && m@ == "Config version must be published before creating a rollout (current: "@ + s@ + ")"@
            },
            None => r matches Err(AppError::NotFound(m)) && m@ == "Config version not found for this template"@,
        },
{
    match status {
        Some(s) => {
            if str_eq(s, "published") {
                Ok(())
            } else {
                let mut m: Vec<char> = Vec::new();
                push_str(&mut m, "Config version must be published before creating a rollout (current: ");
                push_str(&mut m, s);
                push_str(&mut m, ")");
                Err(AppError::BadRequest(string_of(m.as_slice())))
            }
        },
        None => Err(AppError::NotFound(text("Config version not found for this template"))),
    }
}

/// Progress of a rollout plan: the number of the last activated stage (0
/// before any) out of `total_stages`.
#[derive(Debug, Clone, Copy, PartialEq, Eq, Structural)]
pub struct RolloutProgress {
    pub current_stage: i32,
    pub total_stages: i64,
}

/// Status of a rollout plan.
#[derive(Debug, Clone, Copy, PartialEq, Eq, Structural)]
pub enum PlanStatus {
    Active,
    Completed,
}

/// The plan after activating stage `stage_number` whose status is
/// `stage_status`, or why it cannot be activated: the stage must be
/// `pending` and be the next one.  The plan completes with its last stage.
pub open spec fn activation(p: RolloutProgress, stage_status: Seq<char>, stage_number: i16) -> Result<(RolloutProgress, PlanStatus), Seq<char>> {
    if stage_status != "pending"@ {
        Err("Stage is already "@ + stage_status)
    } else if stage_number as int != p.current_stage + 1 {
        Err("Must activate stage "@ + decimal_int(p.current_stage + 1) + " before stage "@ + decimal_int(stage_number as int))
    } else {
        let next = RolloutProgress { current_stage: (p.current_stage + 1) as i32, total_stages: p.total_stages };
        Ok((next, if p.current_stage + 1 == p.total_stages { PlanStatus::Completed } else { PlanStatus::Active }))
    }
}

/// Activate a stage of a plan.
pub fn activate_stage(progress: RolloutProgress, stage_status: &str, stage_number: i16) -> (r: Result<(RolloutProgress, PlanStatus), String>)
    requires
        progress.current_stage < i32::MAX,
    ensures
        match r {
            Ok(v) => activation(progress, stage_status@, stage_number) == Ok::<_, Seq<char>>(v),
            Err(m) => activation(progress, stage_status@, stage_number) == Err::<(RolloutProgress, PlanStatus), _>(m@),
        },
{
    if !str_eq(stage_status, "pending") {
        let mut m: Vec<char> = Vec::new();
        push_str(&mut m, "Stage is already ");
        push_str(&mut m, stage_status);
        return Err(string_of(m.as_slice()));
    }
    let expected = progress.current_stage + 1;
    if stage_number as i32 != expected {
        let mut m: Vec<char> = Vec::new();
        push_str(&mut m, "Must activate stage ");
        let a = decimal_i64(expected as i64);
        push_chars(&mut m, a.as_slice());
        push_str(&mut m, " before stage ");
        let b = decimal_i64(stage_number as i64);
        push_chars(&mut m, b.as_slice());
        return Err(string_of(m.as_slice()));
    }
    let next = RolloutProgress { current_stage: expected, total_stages: progress.total_stages };
    let status = if expected as i64 == progress.total_stages { PlanStatus::Completed } else { PlanStatus::Active };
    Ok((next, status))
}

impl PlanStatus {
    pub fn as_str(self) -> (r: &'static str)
        ensures
            r@ == (match self { PlanStatus::Active => "active"@, PlanStatus::Completed => "completed"@ }),
    {
        match self {
            PlanStatus::Active => "active",
            PlanStatus::Completed => "completed",
        }
    }
}

/// Activating the stages of a plan in order, one after another from a fresh
/// plan, succeeds at every step and completes the plan exactly at its last
/// stage.
pub proof fn law_sequential_activation_completes(total: i64, k: i32)
    requires
        1 <= k <= total,
        k < i32::MAX,
    ensures
        activation(RolloutProgress { current_stage: (k - 1) as i32, total_stages: total }, "pending"@, k as i16) is Ok
            || k > i16::MAX,
        k <= i16::MAX ==> (activation(RolloutProgress { current_stage: (k - 1) as i32, total_stages: total }, "pending"@, k as i16)
            == Ok::<(RolloutProgress, PlanStatus), Seq<char>>((RolloutProgress { current_stage: k, total_stages: total },
            if k == total { PlanStatus::Completed } else { PlanStatus::Active }))),
{
}

/// A stage that is not the next one, or not pending, is refused.
pub proof fn law_out_of_order_activation_refused(p: RolloutProgress, stage_status: Seq<char>, stage_number: i16)
    requires
        stage_status != "pending"@ || stage_number as int != p.current_stage + 1,
    ensures
        activation(p, stage_status, stage_number) is Err,
{
}

/// The plan after a run of activation attempts, each naming a stage's status
/// and number, and the numbers of the stages activated, in order.
pub open spec fn run_activations(p: RolloutProgress, attempts: Seq<(Seq<char>, i16)>) -> (RolloutProgress, Seq<i16>)
    decreases attempts.len(),
{
    if attempts.len() == 0 {
        (p, Seq::empty())
    } else {
        let before = run_activations(p, attempts.drop_last());
        let a = attempts.last();
        match activation(before.0, a.0, a.1) {
            Ok(v) => (v.0, before.1.push(a.1)),
            Err(_) => before,
        }
    }
}

/// Whatever stages are asked for, in whatever order, the stages activated
/// are the plan's next ones, one after another: the `i`-th activated is
/// stage `current + 1 + i`, and the plan's counter ends at `current` plus
/// the number activated (the counter staying within `i32`).
pub proof fn law_stages_activate_only_in_order(p: RolloutProgress, attempts: Seq<(Seq<char>, i16)>)
    requires
        p.current_stage + attempts.len() < i32::MAX,
    ensures
        run_activations(p, attempts).0.current_stage == p.current_stage + run_activations(p, attempts).1.len(),
        run_activations(p, attempts).0.total_stages == p.total_stages,
        run_activations(p, attempts).1.len() <= attempts.len(),
        forall|i: int|
            0 <= i < run_activations(p, attempts).1.len() ==> #[trigger] run_activations(p, attempts).1[i] == p.current_stage + 1 + i,
    decreases attempts.len(),
{
    if attempts.len() > 0 {
        law_stages_activate_only_in_order(p, attempts.drop_last());
        let before = run_activations(p, attempts.drop_last());
        let a = attempts.last();
        match activation(before.0, a.0, a.1) {
            Ok(v) => {
                let done = before.1.push(a.1);
                assert forall|i: int| 0 <= i < done.len() implies #[trigger] done[i] == p.current_stage + 1 + i by {
                    if i < before.1.len() {
                        assert(done[i] == before.1[i]);
                    }
                }
            },
            Err(_) => {},
        }
    }
}

} // verus!
