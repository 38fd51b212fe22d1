use calc::currency::{to_map, RateEntry, RateTable};
use calc::node::{op_symbol, OpCode};
use calc::error::CalcError;
use calc::number::Number;
use calc::rational::Rational;
use calc::unit::{common_type, convert, get_unit_name, get_unit_type, single, Unit, UnitType};

fn no_rates() -> RateTable {
    RateTable { rates: Vec::new() }
}

#[test]
fn test_convert_pint_to_gallon() {
    let result = convert(Number::Int(1), &Unit::VolPint, &Unit::VolGallon, &no_rates());
    assert_eq!(result, Ok(Number::Rational(Rational::new(1, 8))));
}

#[test]
fn test_convert_fahrenheit_to_celsius() {
    let result = convert(Number::Int(95), &Unit::TempF, &Unit::TempC, &no_rates());
    assert_eq!(result, Ok(Number::Int(35)));
}

#[test]
fn test_convert_celsius_to_fahrenheit() {
    let result = convert(Number::Int(15), &Unit::TempC, &Unit::TempF, &no_rates());
    assert_eq!(result, Ok(Number::Int(59)));
}

#[test]
fn test_convert_same_temperature_unit_fails() {
    let result = convert(Number::Int(1), &Unit::TempC, &Unit::TempC, &no_rates());
    assert_eq!(result, Err(CalcError::ConversionError));
}

#[test]
fn test_convert_km_to_m() {
    let result = convert(Number::Int(2), &Unit::LenKm, &Unit::LenM, &no_rates());
    assert_eq!(result, Ok(Number::Int(2000)));
}

#[test]
fn test_convert_inch_to_feet() {
    let result = convert(Number::Int(6), &Unit::LenInch, &Unit::LenFeet, &no_rates());
    assert_eq!(result, Ok(Number::Rational(Rational::new(1, 2))));
}

#[test]
fn test_convert_mismatched_categories() {
    let result = convert(Number::Int(1), &Unit::LenM, &Unit::MassKg, &no_rates());
    assert_eq!(result, Err(CalcError::DifferentUnitTypes));
}

#[test]
fn test_common_type() {
    assert_eq!(
        common_type(&Unit::LenM, &Unit::LenMile),
        Some(UnitType::Length)
    );
    assert_eq!(common_type(&Unit::LenM, &Unit::TimeSec), None);
    assert_eq!(
        common_type(&Unit::Curr(0), &Unit::Curr(11)),
        Some(UnitType::Currency)
    );
}

#[test]
fn test_get_unit_type() {
    assert_eq!(get_unit_type(&Unit::VolGallon), UnitType::Volume);
    assert_eq!(get_unit_type(&Unit::MassOunce), UnitType::Mass);
    assert_eq!(get_unit_type(&Unit::TempF), UnitType::Temperature);
}

#[test]
fn test_get_unit_name() {
    assert_eq!(get_unit_name(&Unit::LenFeet), "'");
    assert_eq!(get_unit_name(&Unit::VolGallon), "gallon");
    assert_eq!(get_unit_name(&Unit::TempC), "C");
    assert_eq!(get_unit_name(&Unit::Curr(32)), "USD");
}

#[test]
fn test_single_unit_rule() {
    assert_eq!(single(None, Some(Unit::LenM)), Ok(Some(Unit::LenM)));
    assert_eq!(single(Some(Unit::LenM), None), Ok(Some(Unit::LenM)));
    assert_eq!(single(None, None), Ok(None));
    assert_eq!(
        single(Some(Unit::LenM), Some(Unit::LenKm)),
        Err(CalcError::OperateWithUnits)
    );
}

// Currency indexes in the supported-code table.
const EUR: u8 = 8;
const HUF: u8 = 11;
const USD: u8 = 32;

fn sample_rates() -> RateTable {
    let entries = vec![
        RateEntry { code: USD, unit: 1, rate: Rational::new(350, 1) },
        RateEntry { code: EUR, unit: 1, rate: Rational::new(400, 1) },
        // A quote priced per 100 units.
        RateEntry { code: 16, unit: 100, rate: Rational::new(250, 1) },
    ];
    to_map(entries).unwrap()
}

#[test]
fn test_to_map_divides_by_unit() {
    let table = sample_rates();
    assert_eq!(table.rates[2], (16, Rational::new(5, 2)));
}

#[test]
fn test_currency_convert_through_pivot() {
    let table = sample_rates();
    // USD -> EUR goes through the pivot: 350 / 400.
    assert_eq!(
        calc::currency::convert(USD, EUR, &table),
        Ok(Rational::new(7, 8))
    );
    assert_eq!(
        calc::currency::convert(USD, HUF, &table),
        Ok(Rational::new(350, 1))
    );
    assert_eq!(
        calc::currency::convert(HUF, USD, &table),
        Ok(Rational::new(1, 350))
    );
    // An unlisted currency cannot convert.
    assert_eq!(
        calc::currency::convert(USD, 0, &table),
        Err(CalcError::ConversionError)
    );
}

#[test]
fn test_convert_currency_value() {
    let table = sample_rates();
    let result = convert(Number::Int(5), &Unit::Curr(USD), &Unit::Curr(EUR), &table);
    assert_eq!(result, Ok(Number::Rational(Rational::new(35, 8))));
}

#[test]
fn test_op_symbol() {
    assert_eq!(op_symbol(OpCode::Add), "+");
    assert_eq!(op_symbol(OpCode::Subtract), "-");
    assert_eq!(op_symbol(OpCode::Multiply), "*");
    assert_eq!(op_symbol(OpCode::Divide), "/");
    assert_eq!(op_symbol(OpCode::Power), "^");
    assert_eq!(op_symbol(OpCode::ConvertTo), "to");
    assert_eq!(op_symbol(OpCode::Negate), "-");
}
