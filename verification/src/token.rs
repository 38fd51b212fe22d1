//! The token alphabet the parser consumes. Tokens are produced by an
//! external tokenizer; the core treats the sequence as a finite,
//! random-accessible list. A decimal literal arrives as an exact rational.

use vstd::prelude::*;

use crate::number::{spec_collapse, Number};
use crate::rational::{rat_wf, Rational};
use crate::unit::{Unit, CURRENCY_COUNT};

verus! {

#[derive(Clone, Copy, Debug, PartialEq, Eq, Structural)]
pub enum Token {
    ParBegin,
    ParEnd,
    Exp,
    Sub,
    Add,
    Mul,
    Div,
    Mod,
    KwTo,
    /// An integer literal.
    LitInt(i64),
    /// A decimal literal, held exactly.
    LitRat(Rational),
    /// A currency code, as an index into the supported-code table.
    Curr(u8),
    LenM,
    LenKm,
    LenCm,
    LenMm,
    LenInch,
    LenFeet,
    LenYard,
    LenMile,
    AreaM,
    AreaKm,
    AreaCm,
    AreaMm,
    AreaInch,
    AreaFeet,
    AreaYard,
    AreaMile,
    VolLiter,
    VolM,
    VolCm,
    VolMm,
    VolInch,
    VolFeet,
    VolYard,
    VolMilliLiter,
    VolPint,
    VolGallon,
    VolCup,
    MassG,
    MassKg,
    MassOunce,
    MassPound,
    TempC,
    TempF,
    TimeSec,
    TimeMin,
    TimeHour,
    /// A word that is no keyword, unit or currency.
    Ident,
    /// Text the tokenizer could not read.
    Invalid,
}

pub open spec fn token_wf(t: Token) -> bool {
    match t {
        Token::LitRat(r) => rat_wf(r),
        _ => true,
    }
}

pub open spec fn tokens_wf(t: Seq<Token>) -> bool {
    forall|i: int| 0 <= i < t.len() ==> token_wf(#[trigger] t[i])
}

/// The number a literal token stands for, if it is one.
pub open spec fn token_number(t: Token) -> Option<Number> {
    match t {
        Token::LitInt(v) => Some(Number::Int(v)),
        Token::LitRat(r) => Some(spec_collapse(r)),
        _ => None,
    }
}

/// The unit a token stands for, if it is one. A currency index beyond the
/// code table, and the cup token (which has no conversion factor), name no
/// unit.
pub open spec fn token_unit(t: Token) -> Option<Unit> {
    match t {
        Token::Curr(i) => if i < CURRENCY_COUNT {
            Some(Unit::Curr(i))
        } else {
            None
        },
        Token::LenM => Some(Unit::LenM),
        Token::LenKm => Some(Unit::LenKm),
        Token::LenCm => Some(Unit::LenCm),
        Token::LenMm => Some(Unit::LenMm),
        Token::LenInch => Some(Unit::LenInch),
        Token::LenFeet => Some(Unit::LenFeet),
        Token::LenYard => Some(Unit::LenYard),
        Token::LenMile => Some(Unit::LenMile),
        Token::AreaM => Some(Unit::AreaM),
        Token::AreaKm => Some(Unit::AreaKm),
        Token::AreaCm => Some(Unit::AreaCm),
        Token::AreaMm => Some(Unit::AreaMm),
        Token::AreaInch => Some(Unit::AreaInch),
        Token::AreaFeet => Some(Unit::AreaFeet),
        Token::AreaYard => Some(Unit::AreaYard),
        Token::AreaMile => Some(Unit::AreaMile),
        Token::VolLiter => Some(Unit::VolLiter),
        Token::VolM => Some(Unit::VolM),
        Token::VolCm => Some(Unit::VolCm),
        Token::VolMm => Some(Unit::VolMm),
        Token::VolInch => Some(Unit::VolInch),
        Token::VolFeet => Some(Unit::VolFeet),
        Token::VolYard => Some(Unit::VolYard),
        Token::VolMilliLiter => Some(Unit::VolMilliLiter),
        Token::VolPint => Some(Unit::VolPint),
        Token::VolGallon => Some(Unit::VolGallon),
        Token::MassG => Some(Unit::MassG),
        Token::MassKg => Some(Unit::MassKg),
        Token::MassOunce => Some(Unit::MassOunce),
        Token::MassPound => Some(Unit::MassPound),
        Token::TempC => Some(Unit::TempC),
        Token::TempF => Some(Unit::TempF),
        Token::TimeSec => Some(Unit::TimeSec),
        Token::TimeMin => Some(Unit::TimeMin),
        Token::TimeHour => Some(Unit::TimeHour),
        _ => None,
    }
}

} // verus!
