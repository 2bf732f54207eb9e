//! Commission plans per exchange, and the commission charged on one
//! contract.
//!
//! A rate is a percentage scaled by `1e5` (half a percent is `50_000`);
//! the engine divides by one hundred exactly once, at the point where the
//! rate multiplies the commission base.

use vstd::prelude::*;

use crate::fixed::{
    round_div, rdiv, lemma_round_div_abs_le, lemma_mul_le, MONEY_CENTS_MAX, PRICE_E5_MAX,
    PV_E5_MAX,
};
use crate::instruments::{CommissionType, InstrumentInfo};

verus! {

/// Largest admissible sum of commission rates over the plans of one
/// exchange: `1e4` percent, scaled by `1e5`.
pub const RATE_SUM_E5_MAX: i64 = 1_000_000_000;

/// The rates of one commission plan, one entry per commission type.
pub type PlanRates = Vec<(CommissionType, i32)>;

/// Commission fee structure of every exchange: per exchange, a list of
/// named plans, each mapping commission types to percentage rates.
#[derive(Debug)]
pub struct CommissionPlans {
    pub exchanges: Vec<(String, Vec<(String, PlanRates)>)>,
}

/// The first rate recorded for `ct` from entry `i` onward, if any.
pub open spec fn rate_from(entries: Seq<(CommissionType, i32)>, ct: CommissionType, i: int) -> Option<
    i32,
>
    decreases entries.len() - i,
{
    if i < 0 || i >= entries.len() {
        None
    } else if entries[i].0 == ct {
        Some(entries[i].1)
    } else {
        rate_from(entries, ct, i + 1)
    }
}

/// Contribution of one plan to the total rate: its rate for `ct`, or
/// nothing.
pub open spec fn plan_contribution(plan: Seq<(CommissionType, i32)>, ct: CommissionType) -> int {
    match rate_from(plan, ct, 0) {
        Some(r) => r as int,
        None => 0,
    }
}

/// Sum of the contributions of the plans from index `i` onward.
pub open spec fn sum_rates_from(
    plans: Seq<(String, PlanRates)>,
    ct: CommissionType,
    i: int,
) -> int
    decreases plans.len() - i,
{
    if i < 0 || i >= plans.len() {
        0
    } else {
        plan_contribution(plans[i].1@, ct) + sum_rates_from(plans, ct, i + 1)
    }
}

impl CommissionPlans {
    /// The plans of an exchange from group index `i` onward, if recorded.
    pub open spec fn plans_of_from(self, exchange: Seq<char>, i: int) -> Option<
        Seq<(String, PlanRates)>,
    >
        decreases self.exchanges@.len() - i,
    {
        if i < 0 || i >= self.exchanges@.len() {
            None
        } else if self.exchanges@[i].0@ == exchange {
            Some(self.exchanges@[i].1@)
        } else {
            self.plans_of_from(exchange, i + 1)
        }
    }

    /// Total percentage rate (scaled by `1e5`) that an exchange charges
    /// for a commission type, summed over all its plans.
    pub open spec fn spec_total_rate(self, exchange: Seq<char>, ct: CommissionType) -> int {
        match self.plans_of_from(exchange, 0) {
            Some(plans) => sum_rates_from(plans, ct, 0),
            None => 0,
        }
    }

    /// The rate one named plan of one exchange records for a commission
    /// type.
    pub fn get_commission(
        &self,
        exchange: &str,
        commission_type: CommissionType,
        plan_name: &str,
    ) -> (r: Option<i32>)
        ensures
            r == match self.plans_of_from(exchange@, 0) {
                Some(plans) => plan_rate_spec(plans, plan_name@, commission_type),
                None => None::<i32>,
            },
    {
        let ex: String = exchange.to_owned();
        let pn: String = plan_name.to_owned();
        let mut i: usize = 0;
        while i < self.exchanges.len()
            invariant
                i <= self.exchanges@.len(),
                ex@ == exchange@,
                pn@ == plan_name@,
                self.plans_of_from(exchange@, 0) == self.plans_of_from(exchange@, i as int),
            decreases self.exchanges@.len() - i,
        {
            if self.exchanges[i].0.eq(&ex) {
                let plans = &self.exchanges[i].1;
                let mut j: usize = 0;
                while j < plans.len()
                    invariant
                        i < self.exchanges@.len(),
                        j <= plans@.len(),
                        pn@ == plan_name@,
                        plans == &self.exchanges@[i as int].1,
                        self.plans_of_from(exchange@, 0) == Some(plans@),
                        plan_rate_spec(plans@, plan_name@, commission_type) == plan_rate_from(
                            plans@,
                            plan_name@,
                            commission_type,
                            j as int,
                        ),
                    decreases plans@.len() - j,
                {
                    if plans[j].0.eq(&pn) {
                        return find_rate(&plans[j].1, commission_type);
                    }
                    j = j + 1;
                }
                return None;
            }
            i = i + 1;
        }
        None
    }

    /// Total rate an exchange charges for a commission type; the
    /// executable form of [`Self::spec_total_rate`].
    pub fn total_rate(&self, exchange: &str, ct: CommissionType) -> (r: i128)
        ensures
            r == self.spec_total_rate(exchange@, ct),
    {
        let ex: String = exchange.to_owned();
        let mut i: usize = 0;
        while i < self.exchanges.len()
            invariant
                i <= self.exchanges@.len(),
                ex@ == exchange@,
                self.plans_of_from(exchange@, 0) == self.plans_of_from(exchange@, i as int),
            decreases self.exchanges@.len() - i,
        {
            if self.exchanges[i].0.eq(&ex) {
                let plans = &self.exchanges[i].1;
                let mut sum: i128 = 0;
                let mut j: usize = 0;
                while j < plans.len()
                    invariant
                        i < self.exchanges@.len(),
                        j <= plans@.len(),
                        plans == &self.exchanges@[i as int].1,
                        self.plans_of_from(exchange@, 0) == Some(plans@),
                        sum == sum_rates_from(plans@, ct, 0) - sum_rates_from(
                            plans@,
                            ct,
                            j as int,
                        ),
                    decreases plans@.len() - j,
                {
                    proof {
                        lemma_sum_rates_bound(plans@, ct, 0);
                        lemma_sum_rates_bound(plans@, ct, j as int);
                        lemma_sum_rates_bound(plans@, ct, j + 1);
                    }
                    let found = find_rate(&plans[j].1, ct);
                    match found {
                        Some(v) => {
                            sum = sum + v as i128;
                        },
                        None => {
                        },
                    }
                    j = j + 1;
                }
                return sum;
            }
            i = i + 1;
        }
        0
    }
}

/// The first rate recorded for `ct` in a plan's entries; the executable
/// form of [`rate_from`] at index zero.
pub fn find_rate(entries: &PlanRates, ct: CommissionType) -> (r: Option<i32>)
    ensures
        r == rate_from(entries@, ct, 0),
{
    let mut k: usize = 0;
    while k < entries.len()
        invariant
            k <= entries@.len(),
            rate_from(entries@, ct, 0) == rate_from(entries@, ct, k as int),
        decreases entries@.len() - k,
    {
        if entries[k].0 == ct {
            return Some(entries[k].1);
        }
        k = k + 1;
    }
    None
}

/// The rates of the plan named `name` from plan index `j` onward, if any,
/// looked up for `ct`.
pub open spec fn plan_rate_from(
    plans: Seq<(String, PlanRates)>,
    name: Seq<char>,
    ct: CommissionType,
    j: int,
) -> Option<i32>
    decreases plans.len() - j,
{
    if j < 0 || j >= plans.len() {
        None
    } else if plans[j].0@ == name {
        rate_from(plans[j].1@, ct, 0)
    } else {
        plan_rate_from(plans, name, ct, j + 1)
    }
}

/// The rate of the first plan named `name`, looked up for `ct`.
pub open spec fn plan_rate_spec(
    plans: Seq<(String, PlanRates)>,
    name: Seq<char>,
    ct: CommissionType,
) -> Option<i32> {
    plan_rate_from(plans, name, ct, 0)
}

/// Each partial tail sum of rates is bounded by the number of plans left
/// times the largest rate magnitude.
proof fn lemma_sum_rates_bound(plans: Seq<(String, PlanRates)>, ct: CommissionType, i: int)
    requires
        0 <= i <= plans.len(),
    ensures
        -(plans.len() - i) * 0x8000_0000 <= sum_rates_from(plans, ct, i) <= (plans.len() - i)
            * 0x8000_0000,
    decreases plans.len() - i,
{
    if i < plans.len() {
        lemma_sum_rates_bound(plans, ct, i + 1);
    }
}

/// Commission charged for one contract traded at `price_e5`: the price
/// converted to currency through the point value, rounded to cents, then
/// multiplied by the exchange's total percentage rate.
///
/// Yields nothing when the exchange records no positive rate, when the
/// rate sum exceeds [`RATE_SUM_E5_MAX`], or when the amount would not fit
/// the monetary range.
pub fn calculate_forts_comission(
    price_e5: i64,
    info: &InstrumentInfo,
    plans: &CommissionPlans,
) -> (r: Option<i64>)
    requires
        info.wf(),
        -PRICE_E5_MAX <= price_e5 <= PRICE_E5_MAX,
    ensures
        r == spec_commission(*info, *plans, price_e5 as int),
        r matches Some(c) ==> 0 <= c <= MONEY_CENTS_MAX,
{
    let rate: i128 = plans.total_rate(info.exchange.as_str(), info.commission_type);
    if rate <= 0 || rate > RATE_SUM_E5_MAX as i128 {
        return None;
    }
    let pv = info.point_value_e5();
    let abs_price: i64 = if price_e5 >= 0 {
        price_e5
    } else {
        -price_e5
    };
    proof {
        lemma_mul_le(abs_price as int, PRICE_E5_MAX as int, pv as int, PV_E5_MAX as int);
    }
    let base_n: i128 = (abs_price as i128) * (pv as i128);
    let base: i128 = rdiv(base_n, 100_000_000);
    proof {
        lemma_round_div_abs_le(base_n as int, 100_000_000);
        lemma_mul_le(base as int, base_n as int, rate as int, RATE_SUM_E5_MAX as int);
    }
    let c_n: i128 = base * rate;
    let c: i128 = rdiv(c_n, 10_000_000);
    proof {
        lemma_round_div_abs_le(c_n as int, 10_000_000);
    }
    if c > MONEY_CENTS_MAX as i128 {
        return None;
    }
    Some(c as i64)
}

/// Element-wise agreement of two lists of named plans.
pub open spec fn named_plans_equiv(a: Seq<(String, PlanRates)>, b: Seq<(String, PlanRates)>) -> bool {
    &&& a.len() == b.len()
    &&& forall|j: int| 0 <= j < a.len() ==> #[trigger] a[j].0 == b[j].0 && a[j].1@ == b[j].1@
}

/// Deep agreement of two commission-plan structures.
pub open spec fn plans_equiv(a: CommissionPlans, b: CommissionPlans) -> bool {
    &&& a.exchanges@.len() == b.exchanges@.len()
    &&& forall|i: int|
        0 <= i < a.exchanges@.len() ==> #[trigger] a.exchanges@[i].0 == b.exchanges@[i].0
            && named_plans_equiv(a.exchanges@[i].1@, b.exchanges@[i].1@)
}

/// Clones the rate entries of one plan.
pub fn clone_plan_rates(entries: &PlanRates) -> (r: PlanRates)
    ensures
        r@ == entries@,
{
    let mut out: PlanRates = Vec::new();
    let mut k: usize = 0;
    while k < entries.len()
        invariant
            k <= entries@.len(),
            out@ == entries@.take(k as int),
        decreases entries@.len() - k,
    {
        out.push(entries[k]);
        proof {
            assert(out@ =~= entries@.take(k + 1));
        }
        k = k + 1;
    }
    proof {
        assert(entries@.take(entries@.len() as int) =~= entries@);
    }
    out
}

/// Clones a full commission-plan structure.
pub fn clone_commission_plans(plans: &CommissionPlans) -> (r: CommissionPlans)
    ensures
        plans_equiv(r, *plans),
{
    let mut exchanges: Vec<(String, Vec<(String, PlanRates)>)> = Vec::new();
    let mut i: usize = 0;
    while i < plans.exchanges.len()
        invariant
            i <= plans.exchanges@.len(),
            exchanges@.len() == i,
            forall|a: int|
                0 <= a < i ==> #[trigger] exchanges@[a].0 == plans.exchanges@[a].0
                    && named_plans_equiv(exchanges@[a].1@, plans.exchanges@[a].1@),
        decreases plans.exchanges@.len() - i,
    {
        let src_plans = &plans.exchanges[i].1;
        let mut named: Vec<(String, PlanRates)> = Vec::new();
        let mut j: usize = 0;
        while j < src_plans.len()
            invariant
                i < plans.exchanges@.len(),
                src_plans == &plans.exchanges@[i as int].1,
                j <= src_plans@.len(),
                named@.len() == j,
                forall|b: int|
                    0 <= b < j ==> #[trigger] named@[b].0 == src_plans@[b].0 && named@[b].1@
                        == src_plans@[b].1@,
            decreases src_plans@.len() - j,
        {
            named.push((src_plans[j].0.clone(), clone_plan_rates(&src_plans[j].1)));
            j = j + 1;
        }
        proof {
            assert(named_plans_equiv(named@, plans.exchanges@[i as int].1@));
        }
        exchanges.push((plans.exchanges[i].0.clone(), named));
        i = i + 1;
    }
    CommissionPlans { exchanges }
}

/// What [`calculate_forts_comission`] yields: the per-contract commission
/// in cents, or nothing where no usable rate is recorded.
pub open spec fn spec_commission(
    info: InstrumentInfo,
    plans: CommissionPlans,
    price_e5: int,
) -> Option<i64> {
    let rate = plans.spec_total_rate(info.exchange@, info.commission_type);
    let abs_price = if price_e5 >= 0 {
        price_e5
    } else {
        -price_e5
    };
    let base = round_div(abs_price * info.spec_point_value_e5(), 100_000_000);
    let c = round_div(base * rate, 10_000_000);
    if 0 < rate <= RATE_SUM_E5_MAX && 0 <= c <= MONEY_CENTS_MAX {
        Some(c as i64)
    } else {
        None
    }
}

} // verus!
