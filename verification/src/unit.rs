//! The unit algebra: the unit taxonomy, per-category exact conversion
//! factors to a canonical base unit, the affine Celsius/Fahrenheit
//! conversion, currency conversion through an injected rate table, and the
//! compatibility rules the value algebra builds on.

use vstd::prelude::*;

use crate::currency;
use crate::currency::RateTable;
use crate::error::CalcError;
use crate::number::{collapse, num_wf, spec_collapse, spec_to_rational, Number};
use crate::number_op;
use crate::number_op::{spec_num_add, spec_num_div, spec_num_mul, spec_num_sub};
use crate::gcd::nat_abs;
use crate::rational::Rational;

verus! {

/// How many currency codes the calculator knows.
pub const CURRENCY_COUNT: u8 = 34;

#[derive(Clone, Copy, Debug, PartialEq, Eq, Structural)]
pub enum UnitType {
    Length,
    Area,
    Volume,
    Mass,
    Temperature,
    Time,
    Currency,
}

#[derive(Clone, Copy, Debug, PartialEq, Eq, Structural)]
pub enum Unit {
    /// A currency, as an index into the supported currency-code table.
    Curr(u8),
    LenM,
    LenKm,
    LenCm,
    LenMm,
    LenInch,
    LenFeet,
    LenYard,
    LenMile,
    AreaM,
    AreaKm,
    AreaCm,
    AreaMm,
    AreaInch,
    AreaFeet,
    AreaYard,
    AreaMile,
    VolLiter,
    VolMilliLiter,
    VolM,
    VolCm,
    VolMm,
    VolInch,
    VolFeet,
    VolYard,
    VolPint,
    VolGallon,
    MassG,
    MassKg,
    MassOunce,
    MassPound,
    TempC,
    TempF,
    TimeSec,
    TimeMin,
    TimeHour,
}

/// A currency index must point into the code table.
pub open spec fn unit_wf(u: Unit) -> bool {
    match u {
        Unit::Curr(i) => i < CURRENCY_COUNT,
        _ => true,
    }
}

pub open spec fn spec_unit_type(u: Unit) -> UnitType {
    match u {
        Unit::Curr(_) => UnitType::Currency,
        Unit::LenM | Unit::LenKm | Unit::LenCm | Unit::LenMm | Unit::LenInch | Unit::LenFeet
            | Unit::LenYard | Unit::LenMile => UnitType::Length,
        Unit::AreaM | Unit::AreaKm | Unit::AreaCm | Unit::AreaMm | Unit::AreaInch
            | Unit::AreaFeet | Unit::AreaYard | Unit::AreaMile => UnitType::Area,
        Unit::VolLiter | Unit::VolMilliLiter | Unit::VolM | Unit::VolCm | Unit::VolMm
            | Unit::VolInch | Unit::VolFeet | Unit::VolYard | Unit::VolPint
            | Unit::VolGallon => UnitType::Volume,
        Unit::MassG | Unit::MassKg | Unit::MassOunce | Unit::MassPound => UnitType::Mass,
        Unit::TempC | Unit::TempF => UnitType::Temperature,
        Unit::TimeSec | Unit::TimeMin | Unit::TimeHour => UnitType::Time,
    }
}

/// Whether a unit has an exact factor to its category's base unit.
/// Temperatures convert affinely and currencies through the rate table, so
/// neither has one.
pub open spec fn factor_defined(u: Unit) -> bool {
    match u {
        Unit::Curr(_) | Unit::TempC | Unit::TempF => false,
        _ => true,
    }
}

/// Numerator of the exact factor from `u` to its category's base unit
/// (meter, square meter, liter, kilogram, second).
pub open spec fn spec_factor_num(u: Unit) -> int {
    match u {
        Unit::LenM => 1,
        Unit::LenKm => 1000,
        Unit::LenCm => 1,
        Unit::LenMm => 1,
        Unit::LenInch => 254,
        Unit::LenFeet => 3048,
        Unit::LenYard => 9144,
        Unit::LenMile => 16093440,
        Unit::AreaM => 1,
        Unit::AreaKm => 1000000,
        Unit::AreaCm => 1,
        Unit::AreaMm => 1,
        Unit::AreaInch => 64516,
        Unit::AreaFeet => 9290304,
        Unit::AreaYard => 83612736,
        Unit::AreaMile => 258998811033600,
        Unit::VolLiter => 1,
        Unit::VolMilliLiter => 1,
        Unit::VolM => 1000,
        Unit::VolCm => 1,
        Unit::VolMm => 1,
        Unit::VolInch => 16387064,
        Unit::VolFeet => 28316846592,
        Unit::VolYard => 764554857984,
        Unit::VolPint => 454609,
        Unit::VolGallon => 454609,
        Unit::MassG => 1,
        Unit::MassKg => 1,
        Unit::MassOunce => 45359237,
        Unit::MassPound => 45359237,
        Unit::TimeSec => 1,
        Unit::TimeMin => 60,
        Unit::TimeHour => 3600,
        _ => 0,
    }
}

/// Denominator of the exact factor from `u` to its category's base unit.
pub open spec fn spec_factor_den(u: Unit) -> int {
    match u {
        Unit::LenM => 1,
        Unit::LenKm => 1,
        Unit::LenCm => 100,
        Unit::LenMm => 1000,
        Unit::LenInch => 10000,
        Unit::LenFeet => 10000,
        Unit::LenYard => 10000,
        Unit::LenMile => 10000,
        Unit::AreaM => 1,
        Unit::AreaKm => 1,
        Unit::AreaCm => 10000,
        Unit::AreaMm => 1000000,
        Unit::AreaInch => 100000000,
        Unit::AreaFeet => 100000000,
        Unit::AreaYard => 100000000,
        Unit::AreaMile => 100000000,
        Unit::VolLiter => 1,
        Unit::VolMilliLiter => 1000,
        Unit::VolM => 1,
        Unit::VolCm => 1000,
        Unit::VolMm => 1000000,
        Unit::VolInch => 1000000000,
        Unit::VolFeet => 1000000000,
        Unit::VolYard => 1000000000,
        Unit::VolPint => 800000,
        Unit::VolGallon => 100000,
        Unit::MassG => 1000,
        Unit::MassKg => 1,
        Unit::MassOunce => 800000000,
        Unit::MassPound => 100000000,
        Unit::TimeSec => 1,
        Unit::TimeMin => 1,
        Unit::TimeHour => 1,
        _ => 1,
    }
}

/// The supported currency code at an index, in the fixed alphabetical
/// table; the empty string past its end.
pub open spec fn spec_currency_code(i: u8) -> Seq<char> {
    if i == 0 {
        "AUD"@
    } else if i == 1 {
        "BGN"@
    } else if i == 2 {
        "BRL"@
    } else if i == 3 {
        "CAD"@
    } else if i == 4 {
        "CHF"@
    } else if i == 5 {
        "CNY"@
    } else if i == 6 {
        "CZK"@
    } else if i == 7 {
        "DKK"@
    } else if i == 8 {
        "EUR"@
    } else if i == 9 {
        "GBP"@
    } else if i == 10 {
        "HKD"@
    } else if i == 11 {
        "HUF"@
    } else if i == 12 {
        "IDR"@
    } else if i == 13 {
        "ILS"@
    } else if i == 14 {
        "INR"@
    } else if i == 15 {
        "ISK"@
    } else if i == 16 {
        "JPY"@
    } else if i == 17 {
        "KRW"@
    } else if i == 18 {
        "MXN"@
    } else if i == 19 {
        "MYR"@
    } else if i == 20 {
        "NOK"@
    } else if i == 21 {
        "NZD"@
    } else if i == 22 {
        "PHP"@
    } else if i == 23 {
        "PLN"@
    } else if i == 24 {
        "RON"@
    } else if i == 25 {
        "RSD"@
    } else if i == 26 {
        "RUB"@
    } else if i == 27 {
        "SEK"@
    } else if i == 28 {
        "SGD"@
    } else if i == 29 {
        "THB"@
    } else if i == 30 {
        "TRY"@
    } else if i == 31 {
        "UAH"@
    } else if i == 32 {
        "USD"@
    } else if i == 33 {
        "ZAR"@
    } else {
        ""@
    }
}

/// The supported currency code at an index.
pub fn currency_code(i: u8) -> (r: &'static str)
    ensures
        r@ == spec_currency_code(i),
{
    if i == 0 {
        "AUD"
    } else if i == 1 {
        "BGN"
    } else if i == 2 {
        "BRL"
    } else if i == 3 {
        "CAD"
    } else if i == 4 {
        "CHF"
    } else if i == 5 {
        "CNY"
    } else if i == 6 {
        "CZK"
    } else if i == 7 {
        "DKK"
    } else if i == 8 {
        "EUR"
    } else if i == 9 {
        "GBP"
    } else if i == 10 {
        "HKD"
    } else if i == 11 {
        "HUF"
    } else if i == 12 {
        "IDR"
    } else if i == 13 {
        "ILS"
    } else if i == 14 {
        "INR"
    } else if i == 15 {
        "ISK"
    } else if i == 16 {
        "JPY"
    } else if i == 17 {
        "KRW"
    } else if i == 18 {
        "MXN"
    } else if i == 19 {
        "MYR"
    } else if i == 20 {
        "NOK"
    } else if i == 21 {
        "NZD"
    } else if i == 22 {
        "PHP"
    } else if i == 23 {
        "PLN"
    } else if i == 24 {
        "RON"
    } else if i == 25 {
        "RSD"
    } else if i == 26 {
        "RUB"
    } else if i == 27 {
        "SEK"
    } else if i == 28 {
        "SGD"
    } else if i == 29 {
        "THB"
    } else if i == 30 {
        "TRY"
    } else if i == 31 {
        "UAH"
    } else if i == 32 {
        "USD"
    } else if i == 33 {
        "ZAR"
    } else {
        ""
    }
}

/// The short textual symbol a rendered value carries after its number.
pub open spec fn spec_unit_name(u: Unit) -> Seq<char> {
    match u {
        Unit::Curr(i) => spec_currency_code(i),
        Unit::LenM => "m"@,
        Unit::LenKm => "km"@,
        Unit::LenCm => "cm"@,
        Unit::LenMm => "mm"@,
        Unit::LenInch => "\""@,
        Unit::LenFeet => "'"@,
        Unit::LenYard => "yd"@,
        Unit::LenMile => "mi"@,
        Unit::AreaM => "m2"@,
        Unit::AreaKm => "km2"@,
        Unit::AreaCm => "cm2"@,
        Unit::AreaMm => "mm2"@,
        Unit::AreaInch => "in2"@,
        Unit::AreaFeet => "ft2"@,
        Unit::AreaYard => "yd2"@,
        Unit::AreaMile => "mi2"@,
        Unit::VolLiter => "l"@,
        Unit::VolMilliLiter => "ml"@,
        Unit::VolM => "m3"@,
        Unit::VolCm => "cm3"@,
        Unit::VolMm => "mm3"@,
        Unit::VolInch => "in3"@,
        Unit::VolFeet => "ft3"@,
        Unit::VolYard => "yd3"@,
        Unit::VolPint => "pint"@,
        Unit::VolGallon => "gallon"@,
        Unit::MassG => "g"@,
        Unit::MassKg => "kg"@,
        Unit::MassOunce => "oz"@,
        Unit::MassPound => "lb"@,
        Unit::TempC => "C"@,
        Unit::TempF => "F"@,
        Unit::TimeSec => "s"@,
        Unit::TimeMin => "min"@,
        Unit::TimeHour => "h"@,
    }
}

pub fn get_unit_name(a: &Unit) -> (r: &'static str)
    ensures
        r@ == spec_unit_name(*a),
{
    match a {
        Unit::Curr(i) => currency_code(*i),
        Unit::LenM => "m",
        Unit::LenKm => "km",
        Unit::LenCm => "cm",
        Unit::LenMm => "mm",
        Unit::LenInch => "\"",
        Unit::LenFeet => "'",
        Unit::LenYard => "yd",
        Unit::LenMile => "mi",
        Unit::AreaM => "m2",
        Unit::AreaKm => "km2",
        Unit::AreaCm => "cm2",
        Unit::AreaMm => "mm2",
        Unit::AreaInch => "in2",
        Unit::AreaFeet => "ft2",
        Unit::AreaYard => "yd2",
        Unit::AreaMile => "mi2",
        Unit::VolLiter => "l",
        Unit::VolMilliLiter => "ml",
        Unit::VolM => "m3",
        Unit::VolCm => "cm3",
        Unit::VolMm => "mm3",
        Unit::VolInch => "in3",
        Unit::VolFeet => "ft3",
        Unit::VolYard => "yd3",
        Unit::VolPint => "pint",
        Unit::VolGallon => "gallon",
        Unit::MassG => "g",
        Unit::MassKg => "kg",
        Unit::MassOunce => "oz",
        Unit::MassPound => "lb",
        Unit::TempC => "C",
        Unit::TempF => "F",
        Unit::TimeSec => "s",
        Unit::TimeMin => "min",
        Unit::TimeHour => "h",
    }
}

pub fn get_unit_type(a: &Unit) -> (t: UnitType)
    ensures
        t == spec_unit_type(*a),
{
    match a {
        Unit::Curr(_) => UnitType::Currency,
        Unit::LenM | Unit::LenKm | Unit::LenCm | Unit::LenMm | Unit::LenInch | Unit::LenFeet
            | Unit::LenYard | Unit::LenMile => UnitType::Length,
        Unit::AreaM | Unit::AreaKm | Unit::AreaCm | Unit::AreaMm | Unit::AreaInch
            | Unit::AreaFeet | Unit::AreaYard | Unit::AreaMile => UnitType::Area,
        Unit::VolLiter | Unit::VolMilliLiter | Unit::VolM | Unit::VolCm | Unit::VolMm
            | Unit::VolInch | Unit::VolFeet | Unit::VolYard | Unit::VolPint
            | Unit::VolGallon => UnitType::Volume,
        Unit::MassG | Unit::MassKg | Unit::MassOunce | Unit::MassPound => UnitType::Mass,
        Unit::TempC | Unit::TempF => UnitType::Temperature,
        Unit::TimeSec | Unit::TimeMin | Unit::TimeHour => UnitType::Time,
    }
}

/// The category two units share, if any.
pub open spec fn spec_common_type(a: Unit, b: Unit) -> Option<UnitType> {
    if spec_unit_type(a) == spec_unit_type(b) {
        Some(spec_unit_type(a))
    } else {
        None
    }
}

pub fn common_type(a: &Unit, b: &Unit) -> (t: Option<UnitType>)
    ensures
        t == spec_common_type(*a, *b),
{
    let unit_type = get_unit_type(a);
    let other_type = get_unit_type(b);
    if unit_type == other_type {
        Some(unit_type)
    } else {
        None
    }
}

/// At most one operand of a multiplication or division may carry a unit;
/// the surviving unit (if any) labels the result.
pub open spec fn spec_single(a: Option<Unit>, b: Option<Unit>) -> Result<
    Option<Unit>,
    CalcError,
> {
    match a {
        None => Ok(b),
        Some(ua) => match b {
            None => Ok(Some(ua)),
            Some(_) => Err(CalcError::OperateWithUnits),
        },
    }
}

pub fn single(a: Option<Unit>, b: Option<Unit>) -> (r: Result<Option<Unit>, CalcError>)
    ensures
        r == spec_single(a, b),
{
    match a {
        None => Ok(b),
        Some(ua) => match b {
            None => Ok(Some(ua)),
            Some(_) => Err(CalcError::OperateWithUnits),
        },
    }
}

/// The exact factor from `u` to its category's base unit, in lowest terms
/// and collapsed; temperatures and currencies have none.
pub open spec fn spec_factor(u: Unit) -> Result<Number, CalcError> {
    if !factor_defined(u) {
        Err(CalcError::ConversionError)
    } else {
        match crate::rational::spec_rat_make(spec_factor_num(u), spec_factor_den(u)) {
            Ok(r) => Ok(spec_collapse(r)),
            Err(e) => Err(e),
        }
    }
}

pub fn get_default_factor(a: &Unit) -> (r: Result<Number, CalcError>)
    ensures
        r == spec_factor(*a),
        !factor_defined(*a) <==> r == Err::<Number, CalcError>(CalcError::ConversionError),
        factor_defined(*a) ==> (r matches Ok(n) && num_wf(n) && spec_to_rational(n).num
            * spec_factor_den(*a) == spec_factor_num(*a) * spec_to_rational(n).den),
{
    proof {
        crate::rational::lemma_reduce_props(spec_factor_num(*a), spec_factor_den(*a));
    }
    match a {
        Unit::Curr(_) | Unit::TempC | Unit::TempF => Err(CalcError::ConversionError),
        Unit::LenM => Ok(collapse(Rational::new(1, 1))),
        Unit::LenKm => Ok(collapse(Rational::new(1000, 1))),
        Unit::LenCm => Ok(collapse(Rational::new(1, 100))),
        Unit::LenMm => Ok(collapse(Rational::new(1, 1000))),
        Unit::LenInch => Ok(collapse(Rational::new(254, 10000))),
        Unit::LenFeet => Ok(collapse(Rational::new(3048, 10000))),
        Unit::LenYard => Ok(collapse(Rational::new(9144, 10000))),
        Unit::LenMile => Ok(collapse(Rational::new(16093440, 10000))),
        Unit::AreaM => Ok(collapse(Rational::new(1, 1))),
        Unit::AreaKm => Ok(collapse(Rational::new(1000000, 1))),
        Unit::AreaCm => Ok(collapse(Rational::new(1, 10000))),
        Unit::AreaMm => Ok(collapse(Rational::new(1, 1000000))),
        Unit::AreaInch => Ok(collapse(Rational::new(64516, 100000000))),
        Unit::AreaFeet => Ok(collapse(Rational::new(9290304, 100000000))),
        Unit::AreaYard => Ok(collapse(Rational::new(83612736, 100000000))),
        Unit::AreaMile => Ok(collapse(Rational::new(258998811033600, 100000000))),
        Unit::VolLiter => Ok(collapse(Rational::new(1, 1))),
        Unit::VolMilliLiter => Ok(collapse(Rational::new(1, 1000))),
        Unit::VolM => Ok(collapse(Rational::new(1000, 1))),
        Unit::VolCm => Ok(collapse(Rational::new(1, 1000))),
        Unit::VolMm => Ok(collapse(Rational::new(1, 1000000))),
        Unit::VolInch => Ok(collapse(Rational::new(16387064, 1000000000))),
        Unit::VolFeet => Ok(collapse(Rational::new(28316846592, 1000000000))),
        Unit::VolYard => Ok(collapse(Rational::new(764554857984, 1000000000))),
        Unit::VolPint => Ok(collapse(Rational::new(454609, 800000))),
        Unit::VolGallon => Ok(collapse(Rational::new(454609, 100000))),
        Unit::MassG => Ok(collapse(Rational::new(1, 1000))),
        Unit::MassKg => Ok(collapse(Rational::new(1, 1))),
        Unit::MassOunce => Ok(collapse(Rational::new(45359237, 800000000))),
        Unit::MassPound => Ok(collapse(Rational::new(45359237, 100000000))),
        Unit::TimeSec => Ok(collapse(Rational::new(1, 1))),
        Unit::TimeMin => Ok(collapse(Rational::new(60, 1))),
        Unit::TimeHour => Ok(collapse(Rational::new(3600, 1))),
    }
}

/// The factor 9/5 of the affine Celsius-to-Fahrenheit transform.
pub open spec fn temp_factor() -> Number {
    Number::Rational(Rational { num: 9, den: 5 })
}

/// Affine temperature conversion: `F == C * 9/5 + 32`. Only the
/// Celsius/Fahrenheit pair converts; everything else is a conversion error.
pub open spec fn spec_convert_temp(val: Number, from: Unit, to: Unit) -> Result<
    Number,
    CalcError,
> {
    if from == Unit::TempC && to == Unit::TempF {
        match spec_num_mul(val, temp_factor()) {
            Ok(x) => spec_num_add(x, Number::Int(32)),
            Err(e) => Err(e),
        }
    } else if from == Unit::TempF && to == Unit::TempC {
        match spec_num_sub(val, Number::Int(32)) {
            Ok(x) => spec_num_div(x, temp_factor()),
            Err(e) => Err(e),
        }
    } else {
        Err(CalcError::ConversionError)
    }
}

fn convert_temp(val: Number, from: &Unit, to: &Unit) -> (r: Result<Number, CalcError>)
    requires
        num_wf(val),
    ensures
        r == spec_convert_temp(val, *from, *to),
        r matches Ok(n) ==> num_wf(n),
{
    proof {
        assert(crate::gcd::gcd(9nat, 5nat) == crate::gcd::gcd(5nat, 4nat));
        assert(crate::gcd::gcd(5nat, 4nat) == crate::gcd::gcd(4nat, 1nat));
        assert(crate::gcd::gcd(4nat, 1nat) == crate::gcd::gcd(1nat, 0nat));
        assert(crate::gcd::gcd(1nat, 0nat) == 1);
    }
    let factor = Number::Rational(Rational { num: 9, den: 5 });
    let bias = Number::Int(32);
    match (from, to) {
        (Unit::TempC, Unit::TempF) => match number_op::mul(val, factor) {
            Ok(x) => number_op::add(x, bias),
            Err(e) => Err(e),
        },
        (Unit::TempF, Unit::TempC) => match number_op::sub(val, bias) {
            Ok(x) => number_op::div(x, factor),
            Err(e) => Err(e),
        },
        _ => Err(CalcError::ConversionError),
    }
}

/// Conversion of `val` from unit `from` to unit `to`: a category mismatch
/// is `DifferentUnitTypes`; temperatures convert affinely; currencies
/// convert through the rate table; every other category multiplies by the
/// exact ratio of the two base factors.
pub open spec fn spec_convert(
    val: Number,
    from: Unit,
    to: Unit,
    rates: Seq<(u8, Rational)>,
) -> Result<Number, CalcError> {
    if spec_unit_type(from) != spec_unit_type(to) {
        Err(CalcError::DifferentUnitTypes)
    } else if spec_unit_type(from) == UnitType::Temperature {
        spec_convert_temp(val, from, to)
    } else if spec_unit_type(from) == UnitType::Currency {
        match (from, to) {
            (Unit::Curr(f), Unit::Curr(t)) => match currency::spec_curr_convert(f, t, rates) {
                Ok(rate) => spec_num_mul(val, spec_collapse(rate)),
                Err(e) => Err(e),
            },
            _ => Err(CalcError::ConversionError),
        }
    } else {
        match (spec_factor(from), spec_factor(to)) {
            (Ok(f), Ok(t)) => match spec_num_div(f, t) {
                Ok(rate) => spec_num_mul(rate, val),
                Err(e) => Err(e),
            },
            _ => Err(CalcError::ConversionError),
        }
    }
}

/// Factor-based conversion is exact: seen as fractions, a successful
/// conversion satisfies
/// `result * factor(to) == value * factor(from)`,
/// stated by cross-multiplication over the raw factor tables.
#[verifier::rlimit(100)]
pub proof fn lemma_convert_exact(val: Number, from: Unit, to: Unit, rates: Seq<(u8, Rational)>)
    requires
        num_wf(val),
        factor_defined(from),
        factor_defined(to),
        spec_unit_type(from) == spec_unit_type(to),
    ensures
        spec_convert(val, from, to, rates) matches Ok(n) ==> num_wf(n) && spec_to_rational(n).num * (
        spec_factor_den(from) * spec_factor_num(to)) * spec_to_rational(val).den == spec_to_rational(
            val,
        ).num * (spec_factor_num(from) * spec_factor_den(to)) * spec_to_rational(n).den,
{
    let ff = spec_factor_num(from);
    let fd = spec_factor_den(from);
    let tf = spec_factor_num(to);
    let td = spec_factor_den(to);
    assert(1 <= ff <= i64::MAX && 1 <= fd <= u64::MAX);
    assert(1 <= tf <= i64::MAX && 1 <= td <= u64::MAX);
    assert(spec_unit_type(from) != UnitType::Temperature && spec_unit_type(from)
        != UnitType::Currency);
    crate::rational::lemma_reduce_props(ff, fd);
    crate::rational::lemma_reduce_props(tf, td);
    if spec_convert(val, from, to, rates) is Ok {
        let fq = match spec_factor(from) {
            Ok(x) => x,
            Err(_) => arbitrary(),
        };
        let tq = match spec_factor(to) {
            Ok(x) => x,
            Err(_) => arbitrary(),
        };
        let fr = spec_to_rational(fq);
        let tr = spec_to_rational(tq);
        // The reduced factors keep the table values by cross-multiplication
        // and stay positive.
        assert(fr.num * fd == ff * fr.den && fr.num > 0 && fr.den > 0);
        assert(tr.num * td == tf * tr.den && tr.num > 0 && tr.den > 0);
        // The rate is the exact quotient of the two factors.
        let rate = match spec_num_div(fq, tq) {
            Ok(x) => x,
            Err(_) => arbitrary(),
        };
        assert(spec_num_div(fq, tq) is Ok);
        let rr = spec_to_rational(rate);
        assert(crate::rational::spec_sign(tr.num as int) == 1);
        assert(fr.den * nat_abs(tr.num as int) > 0) by (nonlinear_arith)
            requires
                fr.den > 0,
                nat_abs(tr.num as int) > 0,
        ;
        crate::rational::lemma_rat_make_exact(
            crate::rational::spec_sign(tr.num as int) * fr.num * tr.den,
            fr.den * nat_abs(tr.num as int),
        );
        assert(rr.num * (fr.den * tr.num) == (fr.num * tr.den) * rr.den && rr.den > 0) by {
            assert(nat_abs(tr.num as int) == tr.num);
            assert(crate::rational::spec_sign(tr.num as int) * fr.num * tr.den == fr.num * tr.den)
                by (nonlinear_arith)
                requires
                    crate::rational::spec_sign(tr.num as int) == 1,
            ;
            assert(crate::rational::rat_wf(rr));
        }
        // The result is the exact product of the rate and the value.
        let n = match spec_convert(val, from, to, rates) {
            Ok(x) => x,
            Err(_) => arbitrary(),
        };
        let vr = spec_to_rational(val);
        let nr = spec_to_rational(n);
        assert(vr.den > 0);
        assert(rr.den * vr.den > 0) by (nonlinear_arith)
            requires
                rr.den > 0,
                vr.den > 0,
        ;
        crate::rational::lemma_rat_make_exact(rr.num * vr.num, rr.den * vr.den);
        assert(nr.num * (rr.den * vr.den) == (rr.num * vr.num) * nr.den);
        // Chain the three equations: first eliminate the rate, then the
        // reduced factors, in small steps.
        let lv = nr.num * vr.den;
        let rv = vr.num * nr.den;
        let kk = fr.den * tr.num;
        let fv = fr.num * tr.den;
        assert(lv * rr.den == rr.num * rv) by (nonlinear_arith)
            requires
                nr.num * (rr.den * vr.den) == (rr.num * vr.num) * nr.den,
                lv == nr.num * vr.den,
                rv == vr.num * nr.den,
        ;
        assert(lv * rr.den * kk == fv * rr.den * rv) by (nonlinear_arith)
            requires
                lv * rr.den == rr.num * rv,
                rr.num * kk == fv * rr.den,
        ;
        assert(lv * kk == fv * rv) by (nonlinear_arith)
            requires
                lv * rr.den * kk == fv * rr.den * rv,
                rr.den > 0,
        ;
        // Substitute the raw factor values for the reduced ones.
        assert(lv * (fd * tf) * (fr.den * tr.den) == (lv * kk) * (fd * td)) by (nonlinear_arith)
            requires
                kk == fr.den * tr.num,
                tr.num * td == tf * tr.den,
        ;
        assert((fv * rv) * (fd * td) == rv * (ff * td) * (fr.den * tr.den)) by (nonlinear_arith)
            requires
                fv == fr.num * tr.den,
                fr.num * fd == ff * fr.den,
        ;
        assert(fr.den * tr.den > 0) by (nonlinear_arith)
            requires
                fr.den > 0,
                tr.den > 0,
        ;
        assert(lv * (fd * tf) == rv * (ff * td)) by (nonlinear_arith)
            requires
                lv * (fd * tf) * (fr.den * tr.den) == rv * (ff * td) * (fr.den * tr.den),
                fr.den * tr.den > 0,
        ;
        assert(nr.num * (fd * tf) * vr.den == vr.num * (ff * td) * nr.den) by (nonlinear_arith)
            requires
                lv * (fd * tf) == rv * (ff * td),
                lv == nr.num * vr.den,
                rv == vr.num * nr.den,
        ;
    }
}

pub fn convert(val: Number, from: &Unit, to: &Unit, rates: &RateTable) -> (r: Result<
    Number,
    CalcError,
>)
    requires
        num_wf(val),
        currency::table_wf(rates),
    ensures
        r == spec_convert(val, *from, *to, rates.rates@),
        r matches Ok(n) ==> num_wf(n),
{
    let unit_type = match common_type(from, to) {
        Some(t) => t,
        None => {
            return Err(CalcError::DifferentUnitTypes);
        },
    };
    match unit_type {
        UnitType::Temperature => convert_temp(val, from, to),
        UnitType::Currency => {
            let f = match from {
                Unit::Curr(f) => *f,
                _ => {
                    return Err(CalcError::ConversionError);
                },
            };
            let t = match to {
                Unit::Curr(t) => *t,
                _ => {
                    return Err(CalcError::ConversionError);
                },
            };
            match currency::convert(f, t, rates) {
                Ok(rate) => number_op::mul(val, collapse(rate)),
                Err(e) => Err(e),
            }
        },
        _ => {
            let from_factor = match get_default_factor(from) {
                Ok(n) => n,
                Err(e) => {
                    proof {
                        assert(false);
                    }
                    return Err(e);
                },
            };
            let to_factor = match get_default_factor(to) {
                Ok(n) => n,
                Err(e) => {
                    proof {
                        assert(false);
                    }
                    return Err(e);
                },
            };
            let rate = match number_op::div(from_factor, to_factor) {
                Ok(n) => n,
                Err(e) => {
                    return Err(e);
                },
            };
            number_op::mul(rate, val)
        },
    }
}

} // verus!
