//! The financial store: one table of yearly and one of daily data, both
//! indexed by time offset, field and company, with the ranges that they
//! cover and the conversions between years, dates and offsets.

use crate::companies::Companies;
use crate::date::day_number;
use crate::date::days_before_year;
use crate::date::lemma_day_number_bounds;
use crate::date::lemma_day_number_order;
use crate::date::lemma_year_step;
use crate::date::year_length;
use crate::date::Date;
use crate::fetching::StorageRepr;
use crate::fields::DailyField;
use crate::fields::YearlyField;
use crate::scalar::NAN;
use crate::table::can_allocate;
use crate::table::cube_assign_plane;
use crate::table::cube_assign_span;
use crate::table::cube_dim;
use crate::table::cube_from_elem;
use crate::table::fits;
use crate::table::grid_dim;
use crate::table::Cube;
use crate::util::CompanyId;
use crate::util::IndexEnum;
use vstd::prelude::*;
use vstd::string::StringExecFns;

verus! {

broadcast use vstd::std_specs::hash::group_hash_axioms;

/// The ranges that a store is to cover, both ends included.
#[derive(Debug, Clone, Copy)]
pub struct Options {
    /// The first year of the yearly table.
    pub yearly_min: i32,
    /// The last year of the yearly table.
    pub yearly_max: i32,
    /// The first day of the daily table.
    pub daily_min: Date,
    /// The last day of the daily table.
    pub daily_max: Date,
}

/// The ranges of the options are not ranges: an end does not lie after its
/// start.
#[derive(Debug)]
pub struct InvalidOptionsError(pub String);

/// Which of the two tables something is about.
#[derive(Debug, Clone, Copy, PartialEq, Eq, Structural)]
pub enum Resolution {
    Yearly,
    Daily,
}

/// Why a store could not be built.
#[derive(Debug, Clone, Copy, PartialEq, Eq, Structural)]
pub enum LoadError {
    /// An end of a range does not lie after its start.
    InvalidOptions,
    /// A table over the ranges asked for cannot be allocated.
    TooLarge,
    /// The representation has no table for a year that the range needs.
    MissingYear { resolution: Resolution, year: i32 },
    /// The table of a year has not the lengths that its year, the fields
    /// and the companies give.
    MalformedTable { resolution: Resolution, year: i32 },
}

/// Why a lookup in the store failed.
#[derive(Debug, Clone, Copy, PartialEq, Eq, Structural)]
pub enum LookupError {
    /// The year, or the offset of a year, lies outside the yearly range.
    OutOfRangeYear,
    /// The date, or the offset of a day, lies outside the daily range.
    OutOfRangeDate,
    /// The store knows no company of that symbol or identifier.
    UnknownCompany,
}

impl Options {
    /// Both ranges run from an earlier to a later end.
    pub open spec fn ok(&self) -> bool {
        &&& self.daily_min.wf()
        &&& self.daily_max.wf()
        &&& self.yearly_min < self.yearly_max
        &&& self.daily_min.days() < self.daily_max.days()
    }

    /// The number of years of the yearly range.
    pub open spec fn n_years(&self) -> int {
        self.yearly_max - self.yearly_min + 1
    }

    /// The number of days of the daily range.
    pub open spec fn n_days(&self) -> int {
        self.daily_max.days() - self.daily_min.days() + 1
    }

    /// Accepts the options if both ranges run from an earlier to a later
    /// end.
    pub fn ensure_ok(&self) -> (r: Result<(), InvalidOptionsError>)
        ensures
            r is Ok <==> self.ok(),
            r matches Err(e) ==> e.0@ == "invalid date ranges"@,
    {
        if self.yearly_min < self.yearly_max && self.daily_min.lt(&self.daily_max) {
            Ok(())
        } else {
            Err(InvalidOptionsError(String::from_str("invalid date ranges")))
        }
    }
}

/// The cell of the representation that belongs to `date`, field `j` and
/// company `k`.
pub open spec fn daily_source(repr: StorageRepr, date: Date, j: int, k: int) -> u32 {
    repr.daily@[date.year_of() as i32].at(date.ordinal_of() - 1, j, k)
}

/// The cell of the representation that belongs to `year`, field `j` and
/// company `k`.
pub open spec fn yearly_source(repr: StorageRepr, year: int, j: int, k: int) -> u32 {
    repr.yearly@[year as i32].at(j, k)
}

/// Whether both tables over the ranges of `options` can be allocated for
/// the companies of `repr`.
pub open spec fn sizes_fit(repr: StorageRepr, options: Options) -> bool {
    &&& fits(options.n_years(), 10, repr.companies@.len() as int)
    &&& fits(options.n_days(), 3, repr.companies@.len() as int)
}

/// Whether `repr` has a table of the right lengths for every year that the
/// ranges of `options` touch.
pub open spec fn covers(repr: StorageRepr, options: Options) -> bool {
    &&& forall|year: int|
        options.yearly_min <= year <= options.yearly_max ==> #[trigger] repr.has_yearly(year)
    &&& forall|year: int|
        options.daily_min.year_of() <= year <= options.daily_max.year_of()
            ==> #[trigger] repr.has_daily(year)
}

/// Whether `error` is the first thing that stands in the way of a store
/// over `options` from `repr`. The sizes are looked at first, then the
/// yearly tables from the first year on, then the daily tables.
pub open spec fn refuses(repr: StorageRepr, options: Options, error: LoadError) -> bool {
    match error {
        LoadError::InvalidOptions => !options.ok(),
        LoadError::TooLarge => options.ok() && !sizes_fit(repr, options),
        LoadError::MissingYear { resolution: Resolution::Yearly, year } => {
            &&& options.ok() && sizes_fit(repr, options)
            &&& options.yearly_min <= year <= options.yearly_max
            &&& !repr.yearly@.contains_key(year)
            &&& forall|y: int| options.yearly_min <= y < year ==> #[trigger] repr.has_yearly(y)
        },
        LoadError::MalformedTable { resolution: Resolution::Yearly, year } => {
            &&& options.ok() && sizes_fit(repr, options)
            &&& options.yearly_min <= year <= options.yearly_max
            &&& repr.yearly@.contains_key(year)
            &&& !repr.has_yearly(year as int)
            &&& forall|y: int| options.yearly_min <= y < year ==> #[trigger] repr.has_yearly(y)
        },
        LoadError::MissingYear { resolution: Resolution::Daily, year } => {
            &&& options.ok() && sizes_fit(repr, options)
            &&& forall|y: int|
                options.yearly_min <= y <= options.yearly_max ==> #[trigger] repr.has_yearly(y)
            &&& options.daily_min.year_of() <= year <= options.daily_max.year_of()
            &&& !repr.daily@.contains_key(year)
            &&& forall|y: int|
                options.daily_min.year_of() <= y < year ==> #[trigger] repr.has_daily(y)
        },
        LoadError::MalformedTable { resolution: Resolution::Daily, year } => {
            &&& options.ok() && sizes_fit(repr, options)
            &&& forall|y: int|
                options.yearly_min <= y <= options.yearly_max ==> #[trigger] repr.has_yearly(y)
            &&& options.daily_min.year_of() <= year <= options.daily_max.year_of()
            &&& repr.daily@.contains_key(year)
            &&& !repr.has_daily(year as int)
            &&& forall|y: int|
                options.daily_min.year_of() <= y < year ==> #[trigger] repr.has_daily(y)
        },
    }
}

/// The store. Once built it does not change.
#[derive(Debug)]
pub struct Financials {
    companies: Companies,
    options: Options,
    yearly_data: Cube,
    daily_data: Cube,
}

impl Financials {
    /// The ranges that the store covers.
    pub closed spec fn options_of(&self) -> Options {
        self.options
    }

    /// The company index.
    pub closed spec fn companies_of(&self) -> Companies {
        self.companies
    }

    /// The yearly table: year offset by yearly field by company.
    pub closed spec fn yearly_of(&self) -> Cube {
        self.yearly_data
    }

    /// The daily table: day offset by daily field by company.
    pub closed spec fn daily_of(&self) -> Cube {
        self.daily_data
    }

    /// The number of companies.
    pub open spec fn n_companies(&self) -> int {
        self.companies_of()@.len() as int
    }

    /// The ranges are ranges, and each table has one plane for each year or
    /// day of its range, one row for each field and one column for each
    /// company.
    #[verifier::type_invariant]
    pub open spec fn wf(&self) -> bool {
        &&& self.options_of().ok()
        &&& self.companies_of().wf()
        &&& self.yearly_of().len0() == self.options_of().n_years()
        &&& self.yearly_of().len1() == 10
        &&& self.yearly_of().len2() == self.n_companies()
        &&& self.daily_of().len0() == self.options_of().n_days()
        &&& self.daily_of().len1() == 3
        &&& self.daily_of().len2() == self.n_companies()
        &&& fits(self.options_of().n_years(), 10, self.n_companies())
        &&& fits(self.options_of().n_days(), 3, self.n_companies())
    }

    /// The offset of `year` on the year axis, if the store covers it.
    pub open spec fn year_index(&self, year: int) -> Option<int> {
        if self.options_of().yearly_min <= year <= self.options_of().yearly_max {
            Some(year - self.options_of().yearly_min)
        } else {
            None
        }
    }

    /// The year at `index` of the year axis, if the axis is that long.
    pub open spec fn index_year(&self, index: int) -> Option<int> {
        if 0 <= index < self.options_of().n_years() {
            Some(index + self.options_of().yearly_min)
        } else {
            None
        }
    }

    /// The offset of `date` on the day axis, if the store covers it.
    pub open spec fn date_index(&self, date: Date) -> Option<int> {
        if self.options_of().daily_min.days() <= date.days() <= self.options_of().daily_max.days() {
            Some(date.days() - self.options_of().daily_min.days())
        } else {
            None
        }
    }

    /// The date at `index` of the day axis, if the axis is that long.
    pub open spec fn index_date(&self, index: int) -> Option<Date> {
        if 0 <= index < self.options_of().n_days() {
            Some(Date::of_days(self.options_of().daily_min.days() + index))
        } else {
            None
        }
    }

    /// Whether the store holds what `repr` holds for the ranges of
    /// `options`: each plane of the yearly table is the table of its year,
    /// and each plane of the daily table is the plane of its day in the
    /// table of that day's year.
    pub open spec fn holds(&self, repr: StorageRepr, options: Options) -> bool {
        &&& self.wf()
        &&& self.options_of() == options
        &&& self.companies_of() == repr.companies
        &&& forall|i: int, j: int, k: int|
            0 <= i < options.n_years() && 0 <= j < 10 && 0 <= k < self.n_companies()
                ==> #[trigger] self.yearly_of().at(i, j, k) == yearly_source(
                repr,
                options.yearly_min + i,
                j,
                k,
            )
        &&& forall|i: int, j: int, k: int|
            0 <= i < options.n_days() && 0 <= j < 3 && 0 <= k < self.n_companies()
                ==> #[trigger] self.daily_of().at(i, j, k) == daily_source(
                repr,
                Date::of_days(options.daily_min.days() + i),
                j,
                k,
            )
    }

    /// Builds the store over the ranges of `options` from what `repr`
    /// holds. The yearly table of each year of the yearly range becomes the
    /// plane of that year; of the daily table of each year that the daily
    /// range touches, the planes of the days in the range follow each other
    /// in the order of the calendar.
    pub fn from_repr(repr: StorageRepr, options: Options) -> (r: Result<Financials, LoadError>)
        ensures
            r is Ok <==> options.ok() && sizes_fit(repr, options) && covers(repr, options),
            r matches Ok(f) ==> f.holds(repr, options),
            r matches Err(e) ==> refuses(repr, options, e),
    {
        match options.ensure_ok() {
            Err(_) => Err(LoadError::InvalidOptions),
            Ok(()) => Self::from_repr_unchecked(repr, options),
        }
    }

    #[verifier::loop_isolation(false)]
    fn from_repr_unchecked(repr: StorageRepr, options: Options) -> (r: Result<
        Financials,
        LoadError,
    >)
        requires
            options.ok(),
        ensures
            r is Ok <==> sizes_fit(repr, options) && covers(repr, options),
            r matches Ok(f) ==> f.holds(repr, options),
            r matches Err(e) ==> refuses(repr, options, e),
    {
        proof {
            use_type_invariant(&repr.companies);
        }
        let n = repr.companies.len();
        let first_day = options.daily_min.num_days_from_ce();
        let last_day = options.daily_max.num_days_from_ce();
        let min_year = options.daily_min.year();
        let max_year = options.daily_max.year();
        let min_ordinal = options.daily_min.ordinal();
        let max_ordinal = options.daily_max.ordinal();
        proof {
            lemma_day_number_bounds(min_year as int, min_ordinal as int);
            lemma_day_number_bounds(max_year as int, max_ordinal as int);
            lemma_day_number_order(
                min_year as int,
                min_ordinal as int,
                max_year as int,
                max_ordinal as int,
            );
        }
        let years_wide: i64 = options.yearly_max as i64 - options.yearly_min as i64 + 1;
        let days_wide: i64 = last_day as i64 - first_day as i64 + 1;
        if years_wide as u64 > usize::MAX as u64 {
            proof {
                let c = crate::table::positive(n as int);
                assert(years_wide * 10 * c * 4 > isize::MAX) by (nonlinear_arith)
                    requires
                        years_wide > isize::MAX,
                        c >= 1,
                ;
            }
            return Err(LoadError::TooLarge);
        }
        let n_years: usize = years_wide as usize;
        let n_days: usize = days_wide as usize;
        if !can_allocate(n_years, 10, n) || !can_allocate(n_days, 3, n) {
            return Err(LoadError::TooLarge);
        }
        let mut yearly_data = cube_from_elem(n_years, 10, n, NAN);
        let mut i: usize = 0;
        while i < n_years
            invariant
                i <= n_years,
                yearly_data.len0() == n_years,
                yearly_data.len1() == 10,
                yearly_data.len2() == n,
                forall|y: int|
                    options.yearly_min <= y < options.yearly_min + i ==> #[trigger] repr.has_yearly(
                        y,
                    ),
                forall|p: int, j: int, k: int|
                    0 <= p < i && 0 <= j < 10 && 0 <= k < n ==> #[trigger] yearly_data.at(p, j, k)
                        == yearly_source(repr, options.yearly_min + p, j, k),
            decreases n_years - i,
        {
            let year: i32 = (options.yearly_min as i64 + i as i64) as i32;
            match repr.yearly.get(&year) {
                None => {
                    assert(!repr.has_yearly(year as int));
                    return Err(
                        LoadError::MissingYear { resolution: Resolution::Yearly, year },
                    );
                },
                Some(table) => {
                    let (rows, cols) = grid_dim(table);
                    if rows != 10 || cols != n {
                        assert(!repr.has_yearly(year as int));
                        return Err(
                            LoadError::MalformedTable { resolution: Resolution::Yearly, year },
                        );
                    }
                    assert(repr.has_yearly(year as int));
                    let ghost before = yearly_data;
                    cube_assign_plane(&mut yearly_data, i, table);
                    assert forall|p: int, j: int, k: int|
                        0 <= p < i + 1 && 0 <= j < 10 && 0 <= k < n implies #[trigger] yearly_data.at(
                        p,
                        j,
                        k,
                    ) == yearly_source(repr, options.yearly_min + p, j, k) by {
                        if p == i {
                            assert(yearly_data.at(p, j, k) == table.at(j, k));
                        } else {
                            assert(yearly_data.at(p, j, k) == before.at(p, j, k));
                        }
                    }
                },
            }
            i += 1;
        }
        assert forall|y: int| options.yearly_min <= y <= options.yearly_max implies #[trigger] repr.has_yearly(y) by {
            assert(y < options.yearly_min + n_years);
        }

        let mut daily_data = cube_from_elem(n_days, 3, n, NAN);
        let mut year: i32 = min_year;
        let mut curr: usize = 0;
        while year <= max_year
            invariant
                min_year <= year <= max_year + 1,
                curr <= n_days,
                year <= max_year ==> curr == (if year == min_year {
                    first_day as int
                } else {
                    days_before_year(year as int) + 1
                }) - first_day,
                year > max_year ==> curr == n_days,
                daily_data.len0() == n_days,
                daily_data.len1() == 3,
                daily_data.len2() == n,
                forall|y: int| min_year <= y < year ==> #[trigger] repr.has_daily(y),
                forall|p: int, j: int, k: int|
                    0 <= p < curr && 0 <= j < 3 && 0 <= k < n ==> #[trigger] daily_data.at(p, j, k)
                        == daily_source(repr, Date::of_days(first_day + p), j, k),
            decreases max_year + 1 - year,
        {
            let length = year_length(year);
            let day_min: usize = if year == min_year {
                (min_ordinal - 1) as usize
            } else {
                0
            };
            let day_max: usize = if year == max_year {
                (max_ordinal - 1) as usize
            } else {
                (length - 1) as usize
            };
            proof {
                lemma_day_number_order(
                    year as int,
                    day_max + 1,
                    max_year as int,
                    max_ordinal as int,
                );
                assert(curr == day_number(year as int, day_min + 1) - first_day);
            }
            match repr.daily.get(&year) {
                None => {
                    assert(!repr.has_daily(year as int));
                    return Err(LoadError::MissingYear { resolution: Resolution::Daily, year });
                },
                Some(table) => {
                    let (days, rows, cols) = cube_dim(table);
                    if days != length as usize || rows != 3 || cols != n {
                        assert(!repr.has_daily(year as int));
                        return Err(
                            LoadError::MalformedTable { resolution: Resolution::Daily, year },
                        );
                    }
                    assert(repr.has_daily(year as int));
                    let ghost before = daily_data;
                    cube_assign_span(
                        &mut daily_data,
                        curr,
                        curr + (day_max + 1 - day_min),
                        table,
                        day_min,
                        day_max + 1,
                    );
                    assert forall|p: int, j: int, k: int|
                        0 <= p < curr + (day_max + 1 - day_min) && 0 <= j < 3 && 0 <= k
                            < n implies #[trigger] daily_data.at(p, j, k) == daily_source(
                        repr,
                        Date::of_days(first_day + p),
                        j,
                        k,
                    ) by {
                        if p >= curr {
                            let date = Date::of_days(first_day + p);
                            Date::lemma_date_exists(
                                options.daily_min,
                                options.daily_max,
                                first_day + p,
                            );
                            lemma_day_number_order(
                                year as int,
                                day_min + (p - curr) + 1,
                                date.year_of(),
                                date.ordinal_of(),
                            );
                            assert(date.year_of() == year);
                            assert(date.ordinal_of() - 1 == day_min + (p - curr));
                        } else {
                            assert(daily_data.at(p, j, k) == before.at(p, j, k));
                        }
                    }
                },
            }
            proof {
                lemma_year_step(year as int);
            }
            curr += day_max + 1 - day_min;
            year += 1;
        }
        assert forall|y: int| min_year <= y <= max_year implies #[trigger] repr.has_daily(y) by {}
        let store = Financials { companies: repr.companies, options, yearly_data, daily_data };
        Ok(store)
    }

    /// The yearly table.
    pub fn yearly(&self) -> (r: &Cube)
        ensures
            *r == self.yearly_of(),
            self.wf(),
    {
        proof {
            use_type_invariant(self);
        }
        &self.yearly_data
    }

    /// The daily table.
    pub fn daily(&self) -> (r: &Cube)
        ensures
            *r == self.daily_of(),
            self.wf(),
    {
        proof {
            use_type_invariant(self);
        }
        &self.daily_data
    }

    /// The company index.
    pub fn companies(&self) -> (r: &Companies)
        ensures
            *r == self.companies_of(),
            self.wf(),
    {
        proof {
            use_type_invariant(self);
        }
        &self.companies
    }

    /// The first and the last year of the yearly table.
    pub fn year_range(&self) -> (r: (i32, i32))
        ensures
            r == (self.options_of().yearly_min, self.options_of().yearly_max),
            self.wf(),
    {
        proof {
            use_type_invariant(self);
        }
        (self.options.yearly_min, self.options.yearly_max)
    }

    /// The first and the last day of the daily table.
    pub fn date_range(&self) -> (r: (Date, Date))
        ensures
            r == (self.options_of().daily_min, self.options_of().daily_max),
            self.wf(),
    {
        proof {
            use_type_invariant(self);
        }
        (self.options.daily_min, self.options.daily_max)
    }

    /// Whether the year axis has an offset `index`.
    pub fn valid_year_index(&self, index: usize) -> (r: bool)
        ensures
            r == (index < self.options_of().n_years()),
            r == self.index_year(index as int).is_some(),
    {
        proof {
            use_type_invariant(self);
        }
        let (len, _, _) = cube_dim(&self.yearly_data);
        index < len
    }

    /// Whether the day axis has an offset `index`.
    pub fn valid_date_index(&self, index: usize) -> (r: bool)
        ensures
            r == (index < self.options_of().n_days()),
            r == self.index_date(index as int).is_some(),
    {
        proof {
            use_type_invariant(self);
        }
        let (len, _, _) = cube_dim(&self.daily_data);
        index < len
    }

    /// The year at offset `index`; an error where the year axis is shorter.
    pub fn index_to_year(&self, index: usize) -> (r: Result<i32, LookupError>)
        ensures
            match r {
                Ok(year) => self.index_year(index as int) == Some(year as int),
                Err(e) => e == LookupError::OutOfRangeYear && self.index_year(index as int)
                    is None,
            },
    {
        proof {
            use_type_invariant(self);
        }
        if self.valid_year_index(index) {
            let year: i64 = index as i64 + self.options.yearly_min as i64;
            Ok(year as i32)
        } else {
            Err(LookupError::OutOfRangeYear)
        }
    }

    /// The offset of `year`; an error where the store does not cover it.
    pub fn year_to_index(&self, year: i32) -> (r: Result<usize, LookupError>)
        ensures
            match r {
                Ok(index) => self.year_index(year as int) == Some(index as int),
                Err(e) => e == LookupError::OutOfRangeYear && self.year_index(year as int)
                    is None,
            },
    {
        proof {
            use_type_invariant(self);
        }
        if self.options.yearly_min <= year && year <= self.options.yearly_max {
            let index: i64 = year as i64 - self.options.yearly_min as i64;
            Ok(index as usize)
        } else {
            Err(LookupError::OutOfRangeYear)
        }
    }

    /// The date at offset `index`; an error where the day axis is shorter.
    pub fn index_to_date(&self, index: usize) -> (r: Result<Date, LookupError>)
        ensures
            match r {
                Ok(date) => self.index_date(index as int) == Some(date) && date.wf(),
                Err(e) => e == LookupError::OutOfRangeDate && self.index_date(index as int)
                    is None,
            },
    {
        proof {
            use_type_invariant(self);
        }
        if self.valid_date_index(index) {
            let first = self.options.daily_min.num_days_from_ce();
            proof {
                use_type_invariant(&self.options.daily_max);
                lemma_day_number_bounds(
                    self.options.daily_min.year_of(),
                    self.options.daily_min.ordinal_of(),
                );
                lemma_day_number_bounds(
                    self.options.daily_max.year_of(),
                    self.options.daily_max.ordinal_of(),
                );
                Date::lemma_date_exists(
                    self.options.daily_min,
                    self.options.daily_max,
                    first + index,
                );
            }
            let days: i32 = first + index as i32;
            match Date::from_num_days_from_ce_opt(days) {
                Some(date) => Ok(date),
                None => {
                    proof {
                        let date = Date::of_days(days as int);
                        assert(date.wf() && date.days() == days);
                    }
                    Err(LookupError::OutOfRangeDate)
                },
            }
        } else {
            Err(LookupError::OutOfRangeDate)
        }
    }

    /// The offset of `date`; an error where the store does not cover it.
    pub fn date_to_index(&self, date: Date) -> (r: Result<usize, LookupError>)
        ensures
            match r {
                Ok(index) => self.date_index(date) == Some(index as int),
                Err(e) => e == LookupError::OutOfRangeDate && self.date_index(date) is None,
            },
    {
        proof {
            use_type_invariant(self);
        }
        let first = self.options.daily_min.num_days_from_ce();
        let last = self.options.daily_max.num_days_from_ce();
        let days = date.num_days_from_ce();
        proof {
            lemma_day_number_bounds(
                self.options.daily_min.year_of(),
                self.options.daily_min.ordinal_of(),
            );
            lemma_day_number_bounds(date.year_of(), date.ordinal_of());
        }
        if first <= days && days <= last {
            Ok((days - first) as usize)
        } else {
            Err(LookupError::OutOfRangeDate)
        }
    }

    /// The yearly field `field` of every company in `year`, by company
    /// identifier; an error where the store does not cover the year.
    pub fn yearly_slice(&self, year: i32, field: YearlyField) -> (r: Result<Vec<u32>, LookupError>)
        ensures
            match r {
                Ok(v) => self.year_index(year as int) matches Some(i) && v@.len()
                    == self.n_companies() && forall|k: int|
                    0 <= k < self.n_companies() ==> #[trigger] v@[k] == self.yearly_of().at(
                        i,
                        field.position() as int,
                        k,
                    ),
                Err(e) => e == LookupError::OutOfRangeYear && self.year_index(year as int)
                    is None,
            },
    {
        proof {
            use_type_invariant(self);
        }
        match self.year_to_index(year) {
            Err(e) => Err(e),
            Ok(i) => match self.yearly_data.lane(i, field.index()) {
                Some(v) => Ok(v),
                None => Err(LookupError::OutOfRangeYear),
            },
        }
    }

    /// The daily field `field` of every company on `date`, by company
    /// identifier; an error where the store does not cover the date.
    pub fn daily_slice(&self, date: Date, field: DailyField) -> (r: Result<Vec<u32>, LookupError>)
        ensures
            match r {
                Ok(v) => self.date_index(date) matches Some(i) && v@.len() == self.n_companies()
                    && forall|k: int|
                    0 <= k < self.n_companies() ==> #[trigger] v@[k] == self.daily_of().at(
                        i,
                        field.position() as int,
                        k,
                    ),
                Err(e) => e == LookupError::OutOfRangeDate && self.date_index(date) is None,
            },
    {
        proof {
            use_type_invariant(self);
        }
        match self.date_to_index(date) {
            Err(e) => Err(e),
            Ok(i) => match self.daily_data.lane(i, field.index()) {
                Some(v) => Ok(v),
                None => Err(LookupError::OutOfRangeDate),
            },
        }
    }

    /// A year that the store covers is the year at its own offset, and an
    /// offset of the year axis is the offset of its own year.
    pub proof fn lemma_year_round_trip(&self, year: int, index: int)
        requires
            self.wf(),
        ensures
            self.year_index(year) matches Some(i) ==> self.index_year(i) == Some(year),
            self.index_year(index) matches Some(y) ==> self.year_index(y) == Some(index),
    {
    }

    /// A date that the store covers is the date at its own offset, and an
    /// offset of the day axis is the offset of its own date.
    pub proof fn lemma_date_round_trip(&self, date: Date, index: int)
        requires
            self.wf(),
            date.wf(),
        ensures
            self.date_index(date) matches Some(i) ==> self.index_date(i) == Some(date),
            self.index_date(index) matches Some(d) ==> d.wf() && self.date_index(d) == Some(
                index,
            ),
    {
        let first = self.options_of().daily_min;
        let last = self.options_of().daily_max;
        if self.date_index(date) is Some {
            Date::lemma_date_exists(first, last, date.days());
            Date::of_days(date.days()).lemma_days_injective(date);
        }
        if self.index_date(index) is Some {
            Date::lemma_date_exists(first, last, first.days() + index);
        }
    }

    /// The identifier of the company `company`; an error where the store
    /// does not know the symbol.
    pub fn company_to_index(&self, company: &str) -> (r: Result<CompanyId, LookupError>)
        ensures
            match r {
                Ok(id) => self.companies_of().id_of(company@) == Some(id as int) && id
                    < self.n_companies(),
                Err(e) => e == LookupError::UnknownCompany && self.companies_of().id_of(company@)
                    is None,
            },
    {
        proof {
            use_type_invariant(self);
        }
        match self.companies.get(company) {
            Some(id) => Ok(id),
            None => Err(LookupError::UnknownCompany),
        }
    }

    /// The symbol of the company `index`; an error where the store has no
    /// such company.
    pub fn index_to_company(&self, index: CompanyId) -> (r: Result<&String, LookupError>)
        ensures
            match r {
                Ok(symbol) => index < self.n_companies() && symbol@ == self.companies_of()@[index as int],
                Err(e) => e == LookupError::UnknownCompany && index >= self.n_companies(),
            },
    {
        match self.companies.symbol(index) {
            Some(symbol) => Ok(symbol),
            None => Err(LookupError::UnknownCompany),
        }
    }
}

} // verus!
