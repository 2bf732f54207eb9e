//! Instrument metadata and its validation.
//!
//! Prices and steps are scaled by `1e5`, monetary fields are cents, and
//! timestamps are seconds since the epoch.  A registry groups contracts
//! under a base instrument name and resolves a symbol to its metadata.

use vstd::prelude::*;

use crate::fixed::{
    round_div, rdiv, lemma_round_div_abs_le, lemma_mul_le, SCALE_E5, PRICE_E5_MAX, PV_E5_MAX,
    MONEY_CENTS_MAX,
};

verus! {

/// Kind of instrument.
#[derive(Clone, Copy, Debug, PartialEq, Eq, Structural)]
pub enum InstrumentType {
    Futures,
    Equity,
    ReversalFutures,
}

/// How the commission rate of an instrument is quoted.
#[derive(Clone, Copy, Debug, PartialEq, Eq, Structural)]
pub enum CommissionType {
    Currency,
    Index,
    Percent,
}

/// Why an instrument failed validation.
#[derive(Clone, Copy, Debug, PartialEq, Eq, Structural)]
pub enum ValidationError {
    NonPositiveMargin,
    MarginTooLarge,
    NonPositiveStep,
    StepTooLarge,
    NonPositiveStepPrice,
    StepPriceTooLarge,
    NegativeMarginalCosts,
    MarginalCostsTooLarge,
    PrecisionTooLarge,
    PointValueTooLarge,
    ZeroPointValue,
}

/// Metadata of a single contract.
#[derive(Debug)]
pub struct InstrumentInfo {
    /// Exchange where the contract trades.
    pub exchange: String,
    pub instrument_type: InstrumentType,
    /// Number of decimal places of a contract quantity; at most five.
    pub contract_precision: usize,
    /// Initial margin per contract, in cents; positive.
    pub margin_cents: i64,
    pub commission_type: CommissionType,
    /// First tradable bar, seconds since the epoch.
    pub trade_from_ts: i64,
    /// Expiration, seconds since the epoch.
    pub expiration_ts: i64,
    /// Ancillary per-contract costs, in cents; non-negative.
    pub marginal_costs_cents: i64,
    /// Price step, scaled by `1e5`; positive.
    pub step_e5: i64,
    /// Currency value of one price step, scaled by `1e5`; positive.
    pub step_price_e5: i64,
}

impl Clone for InstrumentInfo {
    fn clone(&self) -> (r: Self)
        ensures
            r == *self,
    {
        InstrumentInfo {
            exchange: self.exchange.clone(),
            instrument_type: self.instrument_type,
            contract_precision: self.contract_precision,
            margin_cents: self.margin_cents,
            commission_type: self.commission_type,
            trade_from_ts: self.trade_from_ts,
            expiration_ts: self.expiration_ts,
            marginal_costs_cents: self.marginal_costs_cents,
            step_e5: self.step_e5,
            step_price_e5: self.step_price_e5,
        }
    }
}

impl InstrumentInfo {
    /// Currency change per `1.0` of price per contract, scaled by `1e5`:
    /// `step_price / step`, rounded to five decimals.
    pub open spec fn spec_point_value_e5(self) -> int {
        round_div(self.step_price_e5 * SCALE_E5, self.step_e5 as int)
    }

    /// The first check that fails, in the order validation performs them.
    pub open spec fn spec_validation_error(self) -> Option<ValidationError> {
        if self.margin_cents <= 0 {
            Some(ValidationError::NonPositiveMargin)
        } else if self.margin_cents > MONEY_CENTS_MAX {
            Some(ValidationError::MarginTooLarge)
        } else if self.step_e5 <= 0 {
            Some(ValidationError::NonPositiveStep)
        } else if self.step_e5 > PRICE_E5_MAX {
            Some(ValidationError::StepTooLarge)
        } else if self.step_price_e5 <= 0 {
            Some(ValidationError::NonPositiveStepPrice)
        } else if self.step_price_e5 > PRICE_E5_MAX {
            Some(ValidationError::StepPriceTooLarge)
        } else if self.marginal_costs_cents < 0 {
            Some(ValidationError::NegativeMarginalCosts)
        } else if self.marginal_costs_cents > MONEY_CENTS_MAX {
            Some(ValidationError::MarginalCostsTooLarge)
        } else if self.contract_precision > 5 {
            Some(ValidationError::PrecisionTooLarge)
        } else if self.spec_point_value_e5() > PV_E5_MAX {
            Some(ValidationError::PointValueTooLarge)
        } else if self.spec_point_value_e5() <= 0 {
            Some(ValidationError::ZeroPointValue)
        } else {
            None
        }
    }

    /// A validated instrument: every numeric field within its admissible
    /// range.
    pub open spec fn wf(self) -> bool {
        &&& 0 < self.margin_cents <= MONEY_CENTS_MAX
        &&& 0 < self.step_e5 <= PRICE_E5_MAX
        &&& 0 < self.step_price_e5 <= PRICE_E5_MAX
        &&& 0 <= self.marginal_costs_cents <= MONEY_CENTS_MAX
        &&& self.contract_precision <= 5
        &&& 0 < self.spec_point_value_e5() <= PV_E5_MAX
    }

    /// Executable form of [`Self::spec_point_value_e5`].
    pub fn point_value_e5(&self) -> (pv: i64)
        requires
            0 < self.step_e5,
            0 < self.step_price_e5 <= PRICE_E5_MAX,
        ensures
            pv == self.spec_point_value_e5(),
            0 <= pv,
    {
        proof {
            lemma_mul_le(
                self.step_price_e5 as int,
                PRICE_E5_MAX as int,
                SCALE_E5 as int,
                SCALE_E5 as int,
            );
        }
        let n: i128 = (self.step_price_e5 as i128) * (SCALE_E5 as i128);
        let pv = rdiv(n, self.step_e5 as i128);
        proof {
            lemma_round_div_abs_le(n as int, self.step_e5 as int);
        }
        pv as i64
    }

    /// Checks every numeric field; `Ok` exactly on well-formed metadata,
    /// and otherwise the first failing check in order.
    pub fn validate(&self) -> (r: Result<(), ValidationError>)
        ensures
            r is Ok <==> self.wf(),
            r matches Err(e) ==> Some(e) == self.spec_validation_error(),
    {
        if self.margin_cents <= 0 {
            return Err(ValidationError::NonPositiveMargin);
        }
        if self.margin_cents > MONEY_CENTS_MAX {
            return Err(ValidationError::MarginTooLarge);
        }
        if self.step_e5 <= 0 {
            return Err(ValidationError::NonPositiveStep);
        }
        if self.step_e5 > PRICE_E5_MAX {
            return Err(ValidationError::StepTooLarge);
        }
        if self.step_price_e5 <= 0 {
            return Err(ValidationError::NonPositiveStepPrice);
        }
        if self.step_price_e5 > PRICE_E5_MAX {
            return Err(ValidationError::StepPriceTooLarge);
        }
        if self.marginal_costs_cents < 0 {
            return Err(ValidationError::NegativeMarginalCosts);
        }
        if self.marginal_costs_cents > MONEY_CENTS_MAX {
            return Err(ValidationError::MarginalCostsTooLarge);
        }
        if self.contract_precision > 5 {
            return Err(ValidationError::PrecisionTooLarge);
        }
        let pv = self.point_value_e5();
        if pv > PV_E5_MAX {
            return Err(ValidationError::PointValueTooLarge);
        }
        if pv == 0 {
            // A step price far smaller than the step rounds the point
            // value to nothing.  Fixed-point accounting cannot represent
            // such a contract (every pnl would collapse to zero), so it
            // is refused here rather than carried as an all-zero ledger.
            return Err(ValidationError::ZeroPointValue);
        }
        Ok(())
    }
}

/// Contracts of one base instrument, each under its contract name.
pub type InstrumentBaseInfo = Vec<(String, InstrumentInfo)>;

/// All known instruments, grouped by base instrument name.
#[derive(Debug)]
pub struct InstrumentsInfoRegistry {
    pub groups: Vec<(String, InstrumentBaseInfo)>,
}

impl InstrumentsInfoRegistry {
    /// Whether some contract named `sym` exists in some group.
    pub open spec fn spec_contains(self, sym: Seq<char>) -> bool {
        exists|i: int, j: int|
            0 <= i < self.groups@.len() && 0 <= j < self.groups@[i].1@.len()
                && self.groups@[i].1@[j].0@ == sym
    }

    /// Whether `info` is recorded under the contract name `sym`.
    pub open spec fn spec_has_entry(self, sym: Seq<char>, info: InstrumentInfo) -> bool {
        exists|i: int, j: int|
            0 <= i < self.groups@.len() && 0 <= j < self.groups@[i].1@.len()
                && self.groups@[i].1@[j].0@ == sym && self.groups@[i].1@[j].1 == info
    }

    /// Finds the metadata recorded under a contract name.
    pub fn get_instrument_info(&self, symbol: &str) -> (r: Option<&InstrumentInfo>)
        ensures
            match r {
                Some(info) => self.spec_has_entry(symbol@, *info),
                None => !self.spec_contains(symbol@),
            },
    {
        let sym: String = symbol.to_owned();
        let mut i: usize = 0;
        while i < self.groups.len()
            invariant
                i <= self.groups@.len(),
                sym@ == symbol@,
                forall|a: int, b: int|
                    0 <= a < i && 0 <= b < self.groups@[a].1@.len()
                        ==> self.groups@[a].1@[b].0@ != symbol@,
            decreases self.groups@.len() - i,
        {
            let contracts = &self.groups[i].1;
            let mut j: usize = 0;
            while j < contracts.len()
                invariant
                    i < self.groups@.len(),
                    j <= contracts@.len(),
                    sym@ == symbol@,
                    contracts == &self.groups@[i as int].1,
                    forall|b: int| 0 <= b < j ==> contracts@[b].0@ != symbol@,
                decreases contracts@.len() - j,
            {
                if contracts[j].0.eq(&sym) {
                    return Some(&contracts[j].1);
                }
                j = j + 1;
            }
            i = i + 1;
        }
        None
    }

    /// Resolves every symbol of a strategy to its metadata; fails on the
    /// first symbol that no group records.
    pub fn get_instrument_info_for_strategy(&self, symbol_list: &Vec<String>) -> (r: Result<
        Vec<(String, InstrumentInfo)>,
        String,
    >)
        ensures
            match r {
                Ok(pairs) => {
                    &&& pairs@.len() == symbol_list@.len()
                    &&& forall|k: int|
                        0 <= k < pairs@.len()
                            ==> #[trigger] pairs@[k].0@ == symbol_list@[k]@
                                && self.spec_has_entry(symbol_list@[k]@, pairs@[k].1)
                },
                Err(missing) => exists|k: int|
                    0 <= k < symbol_list@.len() && #[trigger] symbol_list@[k]@ == missing@
                        && !self.spec_contains(missing@),
            },
    {
        let mut result: Vec<(String, InstrumentInfo)> = Vec::new();
        let mut k: usize = 0;
        while k < symbol_list.len()
            invariant
                k <= symbol_list@.len(),
                result@.len() == k,
                forall|m: int|
                    0 <= m < k
                        ==> #[trigger] result@[m].0@ == symbol_list@[m]@
                            && self.spec_has_entry(symbol_list@[m]@, result@[m].1),
            decreases symbol_list@.len() - k,
        {
            let symbol = &symbol_list[k];
            match self.get_instrument_info(symbol.as_str()) {
                Some(info) => {
                    result.push((symbol.clone(), info.clone()));
                    proof {
                        assert(result@[k as int].0@ == symbol_list@[k as int]@);
                    }
                },
                None => {
                    return Err(symbol.clone());
                },
            }
            k = k + 1;
        }
        Ok(result)
    }
}

} // verus!
