use chrono::Datelike;
use chrono::NaiveDate;
use gamma::companies::Companies;
use gamma::date::Date;
use gamma::fetching::StorageRepr;
use gamma::fields::DailyField;
use gamma::fields::YearlyField;
use gamma::financials::Financials;
use gamma::financials::LoadError;
use gamma::financials::LookupError;
use gamma::financials::Options;
use gamma::financials::Resolution;
use gamma::table::Cube;
use gamma::table::Grid;
use gamma::util::CountVariants;
use gamma::util::IndexEnum;

fn ymd(year: i32, month: u32, day: u32) -> Date {
    let date = NaiveDate::from_ymd_opt(year, month, day).unwrap();
    Date::from_yo_opt(date.year(), date.ordinal()).unwrap()
}

fn bits(x: f32) -> u32 {
    x.to_bits()
}

fn yearly_value(year: i32, field: usize, company: usize) -> f32 {
    (year * 1000) as f32 + (field * 10) as f32 + company as f32
}

fn daily_value(year: i32, day0: usize, field: usize, company: usize) -> f32 {
    ((year - 2000) * 100_000) as f32 + (day0 * 100) as f32 + (field * 10) as f32 + company as f32
}

fn symbols() -> Vec<&'static str> {
    vec!["AAPL", "MSFT", "GOOG", "SNAP"]
}

fn days_of(year: i32) -> usize {
    NaiveDate::from_ymd_opt(year, 12, 31).unwrap().ordinal() as usize
}

fn repr_for(yearly_years: &[i32], daily_years: &[i32]) -> StorageRepr {
    let mut companies = Companies::new();
    for symbol in symbols() {
        companies.insert(symbol);
    }
    let n = companies.len();
    let mut repr = StorageRepr::new(companies);
    for &year in yearly_years {
        let mut grid = Grid::from_elem(10, n, bits(f32::NAN)).unwrap();
        for field in 0..10 {
            for company in 0..n {
                grid.set(field, company, bits(yearly_value(year, field, company)));
            }
        }
        repr.yearly.insert(year, grid);
    }
    for &year in daily_years {
        let days = days_of(year);
        let mut cube = Cube::from_elem(days, 3, n, bits(f32::NAN)).unwrap();
        for day0 in 0..days {
            for field in 0..3 {
                for company in 0..n {
                    cube.set(day0, field, company, bits(daily_value(year, day0, field, company)));
                }
            }
        }
        repr.daily.insert(year, cube);
    }
    repr
}

fn options() -> Options {
    Options {
        yearly_min: 2018,
        yearly_max: 2020,
        daily_min: ymd(2019, 12, 30),
        daily_max: ymd(2021, 1, 2),
    }
}

fn store() -> Financials {
    Financials::from_repr(repr_for(&[2017, 2018, 2019, 2020, 2021], &[2019, 2020, 2021]), options())
        .unwrap()
}

#[test]
fn field_indices_follow_declaration_order() {
    assert_eq!(YearlyField::count_variants(), 10);
    assert_eq!(DailyField::count_variants(), 3);
    assert_eq!(YearlyField::CashShortTermInvestments.index(), 0);
    assert_eq!(YearlyField::Ppe.index(), 1);
    assert_eq!(YearlyField::TotalLiabilities.index(), 2);
    assert_eq!(YearlyField::TotalAssets.index(), 3);
    assert_eq!(YearlyField::TotalDebt.index(), 4);
    assert_eq!(YearlyField::TotalShareholdersEquity.index(), 5);
    assert_eq!(YearlyField::TotalOutstandingShares.index(), 6);
    assert_eq!(YearlyField::Eps.index(), 7);
    assert_eq!(YearlyField::SharePriceAtReport.index(), 8);
    assert_eq!(YearlyField::CashFlow.index(), 9);
    assert_eq!(DailyField::HighSharePrice.index(), 0);
    assert_eq!(DailyField::LowSharePrice.index(), 1);
    assert_eq!(DailyField::Volume.index(), 2);
    for i in 0..10 {
        assert_eq!(YearlyField::from_index(i).unwrap().index(), i);
    }
    for i in 0..3 {
        assert_eq!(DailyField::from_index(i).unwrap().index(), i);
    }
    assert_eq!(YearlyField::from_index(10), None);
    assert_eq!(DailyField::from_index(3), None);
}

#[test]
fn ensure_ok_wants_ranges_that_grow() {
    assert!(options().ensure_ok().is_ok());
    let mut same_year = options();
    same_year.yearly_max = same_year.yearly_min;
    assert_eq!(same_year.ensure_ok().unwrap_err().0, "invalid date ranges");
    let mut backwards = options();
    backwards.yearly_min = 2021;
    assert!(backwards.ensure_ok().is_err());
    let mut same_day = options();
    same_day.daily_max = same_day.daily_min;
    assert!(same_day.ensure_ok().is_err());
    let mut day_backwards = options();
    day_backwards.daily_max = ymd(2019, 12, 29);
    assert!(day_backwards.ensure_ok().is_err());
}

#[test]
fn store_has_the_lengths_of_its_ranges() {
    let store = store();
    assert_eq!(store.yearly().dim(), (3, 10, 4));
    // 2 days of 2019, 366 of 2020, 2 of 2021
    assert_eq!(store.daily().dim(), (370, 3, 4));
    assert_eq!(store.companies().len(), 4);
    assert_eq!(store.year_range(), (2018, 2020));
    assert_eq!(store.date_range(), (ymd(2019, 12, 30), ymd(2021, 1, 2)));
    assert!(store.valid_year_index(0));
    assert!(store.valid_year_index(2));
    assert!(!store.valid_year_index(3));
    assert!(store.valid_date_index(369));
    assert!(!store.valid_date_index(370));
}

#[test]
fn yearly_planes_are_the_tables_of_their_years() {
    let store = store();
    for (offset, year) in [2018, 2019, 2020].into_iter().enumerate() {
        for field in 0..10 {
            for company in 0..4 {
                assert_eq!(
                    store.yearly().get(offset, field, company),
                    Some(bits(yearly_value(year, field, company)))
                );
            }
        }
    }
}

#[test]
fn daily_planes_follow_the_calendar() {
    let store = store();
    let first = NaiveDate::from_ymd_opt(2019, 12, 30).unwrap();
    for offset in 0..370usize {
        let date = first + chrono::Duration::days(offset as i64);
        for field in 0..3 {
            for company in 0..4 {
                assert_eq!(
                    store.daily().get(offset, field, company),
                    Some(bits(daily_value(date.year(), date.ordinal0() as usize, field, company))),
                    "offset {}",
                    offset
                );
            }
        }
    }
}

#[test]
fn daily_range_inside_one_year() {
    let options = Options {
        yearly_min: 2018,
        yearly_max: 2019,
        daily_min: ymd(2020, 2, 27),
        daily_max: ymd(2020, 3, 2),
    };
    let store = Financials::from_repr(repr_for(&[2018, 2019], &[2020]), options).unwrap();
    assert_eq!(store.daily().dim(), (5, 3, 4));
    let first_day0 = ymd(2020, 2, 27).ordinal0() as usize;
    for offset in 0..5 {
        assert_eq!(
            store.daily().get(offset, 0, 1),
            Some(bits(daily_value(2020, first_day0 + offset, 0, 1)))
        );
    }
    assert_eq!(store.index_to_date(2), Ok(ymd(2020, 2, 29)));
    assert_eq!(store.index_to_date(4), Ok(ymd(2020, 3, 2)));
}

#[test]
fn year_offsets_are_inverse() {
    let store = store();
    for year in 2018..=2020 {
        let offset = store.year_to_index(year).unwrap();
        assert_eq!(offset, (year - 2018) as usize);
        assert_eq!(store.index_to_year(offset), Ok(year));
    }
    for offset in 0..3 {
        let year = store.index_to_year(offset).unwrap();
        assert_eq!(store.year_to_index(year), Ok(offset));
    }
}

#[test]
fn years_out_of_range_are_errors() {
    let store = store();
    assert_eq!(store.year_to_index(2017), Err(LookupError::OutOfRangeYear));
    assert_eq!(store.year_to_index(2021), Err(LookupError::OutOfRangeYear));
    assert_eq!(store.year_to_index(i32::MIN), Err(LookupError::OutOfRangeYear));
    assert_eq!(store.year_to_index(i32::MAX), Err(LookupError::OutOfRangeYear));
    assert_eq!(store.index_to_year(3), Err(LookupError::OutOfRangeYear));
    assert_eq!(store.index_to_year(usize::MAX), Err(LookupError::OutOfRangeYear));
}

#[test]
fn date_offsets_are_inverse() {
    let store = store();
    let first = NaiveDate::from_ymd_opt(2019, 12, 30).unwrap();
    for offset in 0..370usize {
        let naive = first + chrono::Duration::days(offset as i64);
        let date = ymd(naive.year(), naive.month(), naive.day());
        assert_eq!(store.date_to_index(date), Ok(offset));
        assert_eq!(store.index_to_date(offset), Ok(date));
    }
    assert_eq!(store.date_to_index(ymd(2020, 2, 29)), Ok(61));
    assert_eq!(store.date_to_index(ymd(2020, 3, 1)), Ok(62));
}

#[test]
fn dates_out_of_range_are_errors() {
    let store = store();
    assert_eq!(store.date_to_index(ymd(2019, 12, 29)), Err(LookupError::OutOfRangeDate));
    assert_eq!(store.date_to_index(ymd(2021, 1, 3)), Err(LookupError::OutOfRangeDate));
    assert_eq!(store.date_to_index(ymd(1, 1, 1)), Err(LookupError::OutOfRangeDate));
    assert_eq!(store.index_to_date(370), Err(LookupError::OutOfRangeDate));
    assert_eq!(store.index_to_date(usize::MAX), Err(LookupError::OutOfRangeDate));
}

#[test]
fn companies_are_found_by_symbol_and_identifier() {
    let store = store();
    assert_eq!(store.company_to_index("AAPL"), Ok(0));
    assert_eq!(store.company_to_index("SNAP"), Ok(3));
    assert_eq!(store.company_to_index("TSLA"), Err(LookupError::UnknownCompany));
    assert_eq!(store.index_to_company(2).map(|s| s.as_str()), Ok("GOOG"));
    assert_eq!(store.index_to_company(4), Err(LookupError::UnknownCompany));
}

#[test]
fn slices_run_over_the_companies() {
    let store = store();
    let slice = store.yearly_slice(2019, YearlyField::Eps).unwrap();
    assert_eq!(slice.len(), 4);
    for company in 0..4 {
        assert_eq!(slice[company], bits(yearly_value(2019, 7, company)));
    }
    assert_eq!(store.yearly_slice(2021, YearlyField::Eps), Err(LookupError::OutOfRangeYear));
    let date = ymd(2020, 3, 1);
    let slice = store.daily_slice(date, DailyField::Volume).unwrap();
    for company in 0..4 {
        assert_eq!(slice[company], bits(daily_value(2020, 60, 2, company)));
    }
    assert_eq!(
        store.daily_slice(ymd(2021, 6, 1), DailyField::Volume),
        Err(LookupError::OutOfRangeDate)
    );
}

#[test]
fn invalid_options_are_refused_first() {
    let mut bad = options();
    bad.yearly_max = 2018;
    let r = Financials::from_repr(repr_for(&[], &[]), bad);
    assert_eq!(r.unwrap_err(), LoadError::InvalidOptions);
}

#[test]
fn missing_yearly_year_fails_construction() {
    let r = Financials::from_repr(repr_for(&[2018, 2020], &[2019, 2020, 2021]), options());
    assert_eq!(
        r.unwrap_err(),
        LoadError::MissingYear { resolution: Resolution::Yearly, year: 2019 }
    );
    let r = Financials::from_repr(repr_for(&[2019, 2020], &[2019, 2020, 2021]), options());
    assert_eq!(
        r.unwrap_err(),
        LoadError::MissingYear { resolution: Resolution::Yearly, year: 2018 }
    );
}

#[test]
fn missing_daily_year_fails_construction() {
    let r = Financials::from_repr(repr_for(&[2018, 2019, 2020], &[2019, 2021]), options());
    assert_eq!(
        r.unwrap_err(),
        LoadError::MissingYear { resolution: Resolution::Daily, year: 2020 }
    );
    let r = Financials::from_repr(repr_for(&[2018, 2019, 2020], &[2019, 2020]), options());
    assert_eq!(
        r.unwrap_err(),
        LoadError::MissingYear { resolution: Resolution::Daily, year: 2021 }
    );
}

#[test]
fn the_first_missing_year_is_reported() {
    let r = Financials::from_repr(repr_for(&[2018], &[]), options());
    assert_eq!(
        r.unwrap_err(),
        LoadError::MissingYear { resolution: Resolution::Yearly, year: 2019 }
    );
    let r = Financials::from_repr(repr_for(&[2018, 2019, 2020], &[]), options());
    assert_eq!(
        r.unwrap_err(),
        LoadError::MissingYear { resolution: Resolution::Daily, year: 2019 }
    );
}

#[test]
fn tables_of_other_lengths_are_refused() {
    let mut repr = repr_for(&[2018, 2019, 2020], &[2019, 2020, 2021]);
    repr.yearly.insert(2019, Grid::from_elem(10, 3, 0).unwrap());
    assert_eq!(
        Financials::from_repr(repr, options()).unwrap_err(),
        LoadError::MalformedTable { resolution: Resolution::Yearly, year: 2019 }
    );
    let mut repr = repr_for(&[2018, 2019, 2020], &[2019, 2020, 2021]);
    repr.yearly.insert(2020, Grid::from_elem(1, 4, 0).unwrap());
    assert_eq!(
        Financials::from_repr(repr, options()).unwrap_err(),
        LoadError::MalformedTable { resolution: Resolution::Yearly, year: 2020 }
    );
    let mut repr = repr_for(&[2018, 2019, 2020], &[2019, 2020, 2021]);
    repr.daily.insert(2020, Cube::from_elem(365, 3, 4, 0).unwrap());
    assert_eq!(
        Financials::from_repr(repr, options()).unwrap_err(),
        LoadError::MalformedTable { resolution: Resolution::Daily, year: 2020 }
    );
    let mut repr = repr_for(&[2018, 2019, 2020], &[2019, 2020, 2021]);
    repr.daily.insert(2021, Cube::from_elem(365, 2, 4, 0).unwrap());
    assert_eq!(
        Financials::from_repr(repr, options()).unwrap_err(),
        LoadError::MalformedTable { resolution: Resolution::Daily, year: 2021 }
    );
}
