//! What a loader hands to the store: the company index and, for each
//! calendar year, one table of yearly data and one of daily data.

use crate::companies::Companies;
use crate::date::days_in_year;
use crate::table::Cube;
use crate::table::Grid;
use std::collections::HashMap;
use vstd::prelude::*;

verus! {

/// The yearly tables by year: fields by companies.
pub type YearlyMap = HashMap<i32, Grid>;

/// The daily tables by year: days of the year by fields by companies.
pub type DailyMap = HashMap<i32, Cube>;

/// The data as a loader produced it, year by year.
#[derive(Debug)]
pub struct StorageRepr {
    /// The company index.
    pub companies: Companies,
    /// For each year, the yearly fields of each company.
    pub yearly: YearlyMap,
    /// For each year and each of its days, the daily fields of each company.
    pub daily: DailyMap,
}

impl StorageRepr {
    /// Whether there is a yearly table for `year` with one row for each
    /// yearly field and one column for each company.
    pub open spec fn has_yearly(&self, year: int) -> bool {
        &&& i32::MIN <= year <= i32::MAX
        &&& self.yearly@.contains_key(year as i32)
        &&& self.yearly@[year as i32].rows() == 10
        &&& self.yearly@[year as i32].cols() == self.companies@.len()
    }

    /// Whether there is a daily table for `year` with one plane for each day
    /// of that year, one row for each daily field and one column for each
    /// company.
    pub open spec fn has_daily(&self, year: int) -> bool {
        &&& i32::MIN <= year <= i32::MAX
        &&& self.daily@.contains_key(year as i32)
        &&& self.daily@[year as i32].len0() == days_in_year(year)
        &&& self.daily@[year as i32].len1() == 3
        &&& self.daily@[year as i32].len2() == self.companies@.len()
    }

    /// A representation of `companies` that holds no table yet.
    pub fn new(companies: Companies) -> (r: StorageRepr)
        ensures
            r.companies == companies,
            r.yearly@ == Map::<i32, Grid>::empty(),
            r.daily@ == Map::<i32, Cube>::empty(),
    {
        StorageRepr { companies, yearly: HashMap::new(), daily: HashMap::new() }
    }
}

} // verus!
