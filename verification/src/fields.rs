//! The fields of the yearly and the daily table. The order of the variants
//! is the order of the rows on the field axis.

use crate::util::CountVariants;
use crate::util::IndexEnum;
use vstd::prelude::*;

verus! {

/// What a company reports for a year.
#[derive(Clone, Copy, Debug, PartialEq, Eq, Structural, Hash)]
pub enum YearlyField {
    CashShortTermInvestments,
    Ppe,
    TotalLiabilities,
    TotalAssets,
    TotalDebt,
    TotalShareholdersEquity,
    TotalOutstandingShares,
    Eps,
    SharePriceAtReport,
    CashFlow,
}

/// What is known of a company's share on a day.
#[derive(Clone, Copy, Debug, PartialEq, Eq, Structural, Hash)]
pub enum DailyField {
    HighSharePrice,
    LowSharePrice,
    Volume,
}

impl CountVariants for YearlyField {
    open spec fn variant_count() -> nat {
        10
    }

    fn count_variants() -> (n: usize) {
        10
    }
}

impl IndexEnum for YearlyField {
    open spec fn position(&self) -> nat {
        match self {
            YearlyField::CashShortTermInvestments => 0,
            YearlyField::Ppe => 1,
            YearlyField::TotalLiabilities => 2,
            YearlyField::TotalAssets => 3,
            YearlyField::TotalDebt => 4,
            YearlyField::TotalShareholdersEquity => 5,
            YearlyField::TotalOutstandingShares => 6,
            YearlyField::Eps => 7,
            YearlyField::SharePriceAtReport => 8,
            YearlyField::CashFlow => 9,
        }
    }

    fn index(&self) -> (i: usize) {
        match self {
            YearlyField::CashShortTermInvestments => 0,
            YearlyField::Ppe => 1,
            YearlyField::TotalLiabilities => 2,
            YearlyField::TotalAssets => 3,
            YearlyField::TotalDebt => 4,
            YearlyField::TotalShareholdersEquity => 5,
            YearlyField::TotalOutstandingShares => 6,
            YearlyField::Eps => 7,
            YearlyField::SharePriceAtReport => 8,
            YearlyField::CashFlow => 9,
        }
    }

    fn from_index(i: usize) -> (r: Option<Self>) {
        match i {
            0 => Some(YearlyField::CashShortTermInvestments),
            1 => Some(YearlyField::Ppe),
            2 => Some(YearlyField::TotalLiabilities),
            3 => Some(YearlyField::TotalAssets),
            4 => Some(YearlyField::TotalDebt),
            5 => Some(YearlyField::TotalShareholdersEquity),
            6 => Some(YearlyField::TotalOutstandingShares),
            7 => Some(YearlyField::Eps),
            8 => Some(YearlyField::SharePriceAtReport),
            9 => Some(YearlyField::CashFlow),
            _ => None,
        }
    }

    proof fn lemma_position(a: Self, b: Self) {
    }
}

impl CountVariants for DailyField {
    open spec fn variant_count() -> nat {
        3
    }

    fn count_variants() -> (n: usize) {
        3
    }
}

impl IndexEnum for DailyField {
    open spec fn position(&self) -> nat {
        match self {
            DailyField::HighSharePrice => 0,
            DailyField::LowSharePrice => 1,
            DailyField::Volume => 2,
        }
    }

    fn index(&self) -> (i: usize) {
        match self {
            DailyField::HighSharePrice => 0,
            DailyField::LowSharePrice => 1,
            DailyField::Volume => 2,
        }
    }

    fn from_index(i: usize) -> (r: Option<Self>) {
        match i {
            0 => Some(DailyField::HighSharePrice),
            1 => Some(DailyField::LowSharePrice),
            2 => Some(DailyField::Volume),
            _ => None,
        }
    }

    proof fn lemma_position(a: Self, b: Self) {
    }
}

} // verus!
