//! Currency conversion over an injected table of exchange rates. Every rate
//! gives one unit of a currency in the pivot currency (the table's base);
//! converting between two non-pivot currencies goes through the pivot. How
//! the table is fetched, parsed and cached is a caller's concern: the core
//! only reads it.

use vstd::prelude::*;

use crate::error::CalcError;
use crate::rational::{rat_wf, spec_rat_div, spec_rat_invert, spec_rat_mul, Rational};

verus! {

/// The index of the pivot currency (HUF) in the supported-code table.
pub const BASE_CURRENCY: u8 = 11;

/// One parsed exchange-rate record: a currency (as an index into the
/// supported-code table), how many of its units the quote prices, and the
/// quote itself in pivot currency.
#[derive(Clone, Copy, Debug, PartialEq, Eq, Structural)]
pub struct RateEntry {
    pub code: u8,
    pub unit: u32,
    pub rate: Rational,
}

/// An injected table of per-unit exchange rates: for each currency index,
/// the exact price of one of its units in the pivot currency.
pub struct RateTable {
    pub rates: Vec<(u8, Rational)>,
}

pub open spec fn table_wf(t: &RateTable) -> bool {
    forall|i: int| 0 <= i < t.rates@.len() ==> rat_wf(#[trigger] t.rates@[i].1)
}

/// The first rate recorded for a currency index, if any.
pub open spec fn spec_lookup(s: Seq<(u8, Rational)>, code: u8) -> Option<Rational>
    decreases s.len(),
{
    if s.len() == 0 {
        None
    } else if s[0].0 == code {
        Some(s[0].1)
    } else {
        spec_lookup(s.drop_first(), code)
    }
}

fn lookup(t: &RateTable, code: u8) -> (r: Option<Rational>)
    requires
        table_wf(t),
    ensures
        r == spec_lookup(t.rates@, code),
        r matches Some(q) ==> rat_wf(q),
{
    let ghost s = t.rates@;
    let n = t.rates.len();
    let mut i: usize = 0;
    proof {
        assert(s.skip(0) =~= s);
    }
    while i < n
        invariant
            table_wf(t),
            s == t.rates@,
            i <= n,
            n == s.len(),
            spec_lookup(s, code) == spec_lookup(s.skip(i as int), code),
        decreases n - i,
    {
        let entry = t.rates[i];
        proof {
            assert(s.skip(i as int)[0] == s[i as int]);
        }
        if entry.0 == code {
            return Some(entry.1);
        }
        proof {
            assert(s.skip(i as int).drop_first() =~= s.skip(i as int + 1));
        }
        i = i + 1;
    }
    proof {
        assert(s.skip(n as int).len() == 0);
    }
    None
}

/// The exact exchange rate from `from` to `to`: a pivot-currency side reads
/// the table directly, any other pair multiplies the `from` rate by the
/// inverted `to` rate. A currency the table does not list is a conversion
/// error.
pub open spec fn spec_curr_convert(from: u8, to: u8, rates: Seq<(u8, Rational)>) -> Result<
    Rational,
    CalcError,
> {
    if from == BASE_CURRENCY {
        match spec_lookup(rates, to) {
            None => Err(CalcError::ConversionError),
            Some(inv_rate) => spec_rat_invert(inv_rate),
        }
    } else if to == BASE_CURRENCY {
        match spec_lookup(rates, from) {
            None => Err(CalcError::ConversionError),
            Some(rate) => Ok(rate),
        }
    } else {
        match spec_lookup(rates, to) {
            None => Err(CalcError::ConversionError),
            Some(inv_rate) => match spec_lookup(rates, from) {
                None => Err(CalcError::ConversionError),
                Some(rate) => match spec_rat_invert(inv_rate) {
                    Ok(inverted) => spec_rat_mul(inverted, rate),
                    Err(e) => Err(e),
                },
            },
        }
    }
}

pub fn convert(from: u8, to: u8, rates: &RateTable) -> (r: Result<Rational, CalcError>)
    requires
        table_wf(rates),
    ensures
        r == spec_curr_convert(from, to, rates.rates@),
        r matches Ok(q) ==> rat_wf(q),
{
    if from == BASE_CURRENCY {
        match lookup(rates, to) {
            None => Err(CalcError::ConversionError),
            Some(inv_rate) => inv_rate.invert(),
        }
    } else if to == BASE_CURRENCY {
        match lookup(rates, from) {
            None => Err(CalcError::ConversionError),
            Some(rate) => Ok(rate),
        }
    } else {
        match lookup(rates, to) {
            None => Err(CalcError::ConversionError),
            Some(inv_rate) => match lookup(rates, from) {
                None => Err(CalcError::ConversionError),
                Some(rate) => match inv_rate.invert() {
                    Ok(inverted) => inverted.mul(rate),
                    Err(e) => Err(e),
                },
            },
        }
    }
}

/// The per-unit rate of one record: the quote divided by how many units it
/// prices.
pub open spec fn spec_entry_rate(e: RateEntry) -> Result<Rational, CalcError> {
    if e.unit == 1 {
        Ok(e.rate)
    } else {
        spec_rat_div(e.rate, Rational { num: e.unit as i64, den: 1 })
    }
}

/// The table built from a list of records: each currency keyed to its
/// per-unit rate, in list order; the first record whose rate cannot be
/// represented poisons the whole table.
pub open spec fn spec_to_map(s: Seq<RateEntry>) -> Result<Seq<(u8, Rational)>, CalcError>
    decreases s.len(),
{
    if s.len() == 0 {
        Ok(Seq::empty())
    } else {
        match spec_to_map(s.drop_last()) {
            Err(e) => Err(e),
            Ok(t) => match spec_entry_rate(s.last()) {
                Err(e) => Err(e),
                Ok(rate) => Ok(t.push((s.last().code, rate))),
            },
        }
    }
}

/// An error in a prefix of the records poisons every longer prefix.
proof fn lemma_to_map_err_propagates(s: Seq<RateEntry>, i: int, e: CalcError)
    requires
        0 <= i <= s.len(),
        spec_to_map(s.take(i)) == Err::<Seq<(u8, Rational)>, CalcError>(e),
    ensures
        spec_to_map(s) == Err::<Seq<(u8, Rational)>, CalcError>(e),
    decreases s.len() - i,
{
    if i == s.len() {
        assert(s.take(i) =~= s);
    } else {
        assert(s.take(i + 1).drop_last() =~= s.take(i));
        lemma_to_map_err_propagates(s, i + 1, e);
    }
}

/// Turn parsed exchange-rate records into a rate table of per-unit rates.
pub fn to_map(rates: Vec<RateEntry>) -> (r: Result<RateTable, CalcError>)
    requires
        forall|i: int| 0 <= i < rates@.len() ==> rat_wf(#[trigger] rates@[i].rate),
    ensures
        match r {
            Ok(t) => Ok::<Seq<(u8, Rational)>, CalcError>(t.rates@) == spec_to_map(rates@)
                && table_wf(&t),
            Err(e) => Err::<Seq<(u8, Rational)>, CalcError>(e) == spec_to_map(rates@),
        },
{
    let ghost s = rates@;
    let n = rates.len();
    let mut out: Vec<(u8, Rational)> = Vec::new();
    let mut i: usize = 0;
    while i < n
        invariant
            s == rates@,
            i <= n,
            n == s.len(),
            forall|k: int| 0 <= k < s.len() ==> rat_wf(#[trigger] s[k].rate),
            Ok::<Seq<(u8, Rational)>, CalcError>(out@) == spec_to_map(s.take(i as int)),
            forall|k: int| 0 <= k < out@.len() ==> rat_wf(#[trigger] out@[k].1),
        decreases n - i,
    {
        let entry = rates[i];
        let rate = if entry.unit == 1 {
            entry.rate
        } else {
            proof {
                crate::gcd::lemma_gcd_one_right(entry.unit as nat);
            }
            match entry.rate.div(Rational { num: entry.unit as i64, den: 1 }) {
                Ok(q) => q,
                Err(e) => {
                    proof {
                        assert(s.take(i as int + 1).drop_last() =~= s.take(i as int));
                        assert(s.take(i as int + 1).last() == s[i as int]);
                        lemma_to_map_err_propagates(s, i as int + 1, e);
                    }
                    return Err(e);
                },
            }
        };
        out.push((entry.code, rate));
        proof {
            assert(s.take(i as int + 1).drop_last() =~= s.take(i as int));
            assert(s.take(i as int + 1).last() == s[i as int]);
        }
        i = i + 1;
    }
    proof {
        assert(s.take(n as int) =~= s);
    }
    Ok(RateTable { rates: out })
}

} // verus!
