use chrono::Datelike;
use chrono::NaiveDate;
use gamma::companies::Companies;
use gamma::date::Date;
use gamma::fetching::StorageRepr;
use gamma::fields::YearlyField;
use gamma::financials::Financials;
use gamma::financials::Options as StoreOptions;
use gamma::metrics::classify;
use gamma::metrics::BacktrackResult;
use gamma::metrics::BacktrackStatistics;
use gamma::metrics::Bounds;
use gamma::metrics::CalculationError;
use gamma::metrics::Evaluation;
use gamma::metrics::Evaluator;
use gamma::metrics::Field;
use gamma::metrics::Metrics;
use gamma::metrics::Operation;
use gamma::metrics::Options;
use gamma::table::Cube;
use gamma::table::Grid;
use gamma::util::CountVariants;
use gamma::util::IndexEnum;

fn arith(op: Operation, a: u32, b: u32) -> u32 {
    let (x, y) = (f32::from_bits(a), f32::from_bits(b));
    let r = match op {
        Operation::Add => x + y,
        Operation::Subtract => x - y,
        Operation::Multiply => x * y,
        Operation::Divide => x / y,
    };
    r.to_bits()
}

fn ymd(year: i32, month: u32, day: u32) -> Date {
    let date = NaiveDate::from_ymd_opt(year, month, day).unwrap();
    Date::from_yo_opt(date.year(), date.ordinal()).unwrap()
}

fn bits(x: f32) -> u32 {
    x.to_bits()
}

fn days_of(year: i32) -> usize {
    NaiveDate::from_ymd_opt(year, 12, 31).unwrap().ordinal() as usize
}

/// The yearly fields of one company in one year, in the order of the fields.
#[derive(Clone, Copy)]
struct Report {
    cash: f32,
    ppe: f32,
    liabilities: f32,
    assets: f32,
    debt: f32,
    equity: f32,
    shares: f32,
    eps: f32,
    price: f32,
    cash_flow: f32,
}

impl Report {
    fn row(&self) -> [f32; 10] {
        [
            self.cash,
            self.ppe,
            self.liabilities,
            self.assets,
            self.debt,
            self.equity,
            self.shares,
            self.eps,
            self.price,
            self.cash_flow,
        ]
    }
}

/// A company that passes the usual thresholds when bought at 10.
fn sound() -> Report {
    Report {
        cash: 300.0,
        ppe: 400.0,
        liabilities: 100.0,
        assets: 1000.0,
        debt: 50.0,
        equity: 200.0,
        shares: 20.0,
        eps: 4.0,
        price: 40.0,
        cash_flow: 5.0,
    }
}

const BUY: (i32, u32, u32) = (2020, 1, 2);
const SELL: (i32, u32, u32) = (2020, 1, 6);

/// A store over the years 2017 to 2020 and the days from 2020-01-01 to
/// 2020-01-10. Every company has `reports[c]` in each year, and the high
/// share prices `prices[c]` from the buy date on, day by day.
fn store_with(reports: &[Report], prices: &[Vec<f32>]) -> Financials {
    let mut companies = Companies::new();
    for c in 0..reports.len() {
        companies.insert(&format!("C{}", c));
    }
    let n = reports.len();
    let mut repr = StorageRepr::new(companies);
    for year in 2017..=2020 {
        let mut grid = Grid::from_elem(10, n, bits(f32::NAN)).unwrap();
        for c in 0..n {
            for (field, value) in reports[c].row().into_iter().enumerate() {
                grid.set(field, c, bits(value));
            }
        }
        repr.yearly.insert(year, grid);
    }
    let mut cube = Cube::from_elem(days_of(2020), 3, n, bits(f32::NAN)).unwrap();
    for c in 0..n {
        for (d, price) in prices[c].iter().enumerate() {
            cube.set(1 + d, 0, c, bits(*price));
        }
    }
    repr.daily.insert(2020, cube);
    let options = StoreOptions {
        yearly_min: 2017,
        yearly_max: 2020,
        daily_min: ymd(2020, 1, 1),
        daily_max: ymd(2020, 1, 10),
    };
    Financials::from_repr(repr, options).unwrap()
}

fn options() -> Options {
    Options {
        buy_date: ymd(BUY.0, BUY.1, BUY.2),
        sell_date: ymd(SELL.0, SELL.1, SELL.2),
        cash_flows_back: 2,
        max_pe_ratio: bits(15.0),
        max_debt_to_equity: bits(1.0),
        min_potential_roi: bits(0.5),
        min_market_cap: bits(500.0),
        return_percent: bits(0.5),
        ignore_cnav_cmp: false,
    }
}

fn metric(metrics: &Metrics, field: Field, c: usize) -> f32 {
    f32::from_bits(metrics.get_metric(field)[c])
}

#[test]
fn metric_fields_follow_declaration_order() {
    assert_eq!(Field::count_variants(), 10);
    let all = [
        Field::BuySharePrice,
        Field::CashFlows,
        Field::Cnav,
        Field::CnavBuySharePriceDiff,
        Field::CnavNavDiff,
        Field::DebtToEquityRatio,
        Field::MarketCap,
        Field::Nav,
        Field::PeRatio,
        Field::PotentialRoi,
    ];
    for (i, field) in all.into_iter().enumerate() {
        assert_eq!(field.index(), i);
        assert_eq!(Field::from_index(i), Some(field));
    }
    assert_eq!(Field::from_index(10), None);
}

#[test]
fn options_want_buy_before_sell() {
    assert!(options().verify().is_ok());
    let mut same = options();
    same.sell_date = same.buy_date;
    assert!(same.verify().is_err());
    let mut backwards = options();
    backwards.sell_date = ymd(2020, 1, 1);
    assert!(backwards.verify().is_err());
}

#[test]
fn formulas_give_the_expected_numbers() {
    let store = store_with(&[sound()], &[vec![10.0, 11.0, 12.0, 13.0, 14.0]]);
    let metrics = Metrics::calculate(&store, options(), &arith).unwrap();
    assert_eq!(metric(&metrics, Field::BuySharePrice, 0), 10.0);
    // (1000 - 100) / 20
    assert_eq!(metric(&metrics, Field::Nav, 0), 45.0);
    // (400 / 2 + 300 - 100) / 20
    assert_eq!(metric(&metrics, Field::Cnav, 0), 20.0);
    // 40 / 4
    assert_eq!(metric(&metrics, Field::PeRatio, 0), 10.0);
    // 50 / 200
    assert_eq!(metric(&metrics, Field::DebtToEquityRatio, 0), 0.25);
    // (45 - 20) / 20
    assert_eq!(metric(&metrics, Field::PotentialRoi, 0), 1.25);
    // 20 * 40
    assert_eq!(metric(&metrics, Field::MarketCap, 0), 800.0);
    // 20 - 45
    assert_eq!(metric(&metrics, Field::CnavNavDiff, 0), -25.0);
    // 20 - 10
    assert_eq!(metric(&metrics, Field::CnavBuySharePriceDiff, 0), 10.0);
    assert_eq!(metric(&metrics, Field::CashFlows, 0), 1.0);
}

#[test]
fn metrics_table_has_rows_for_fields_and_columns_for_companies() {
    let store = store_with(&[sound(), sound(), sound()], &[vec![10.0], vec![20.0], vec![30.0]]);
    let metrics = Metrics::calculate(&store, options(), &arith).unwrap();
    assert_eq!(metrics.inner().dim(), (10, 3));
    assert_eq!(metrics.get_metric(Field::BuySharePrice), vec![bits(10.0), bits(20.0), bits(30.0)]);
    let column = metrics.get_company(1).unwrap();
    assert_eq!(column.len(), 10);
    assert_eq!(f32::from_bits(column[Field::BuySharePrice.index()]), 20.0);
    assert_eq!(f32::from_bits(column[Field::Nav.index()]), 45.0);
    assert_eq!(f32::from_bits(column[Field::CnavBuySharePriceDiff.index()]), 0.0);
    assert!(metrics.get_company(3).is_none());
}

#[test]
fn cash_flows_look_at_every_year_of_the_window() {
    let store = store_with(&[sound()], &[vec![10.0]]);
    // years 2017..=2020 all positive
    let mut all = options();
    all.cash_flows_back = 3;
    let metrics = Metrics::calculate(&store, all, &arith).unwrap();
    assert_eq!(metric(&metrics, Field::CashFlows, 0), 1.0);

    // one year with a cash flow of zero inside the window
    let mut companies = Companies::new();
    companies.insert("C0");
    let mut repr = StorageRepr::new(companies);
    for year in 2017..=2020 {
        let mut grid = Grid::from_elem(10, 1, bits(f32::NAN)).unwrap();
        for (field, value) in sound().row().into_iter().enumerate() {
            grid.set(field, 0, bits(value));
        }
        if year == 2018 {
            grid.set(YearlyField::CashFlow.index(), 0, bits(0.0));
        }
        repr.yearly.insert(year, grid);
    }
    let mut cube = Cube::from_elem(366, 3, 1, bits(f32::NAN)).unwrap();
    cube.set(1, 0, 0, bits(10.0));
    repr.daily.insert(2020, cube);
    let store_options = StoreOptions {
        yearly_min: 2017,
        yearly_max: 2020,
        daily_min: ymd(2020, 1, 1),
        daily_max: ymd(2020, 1, 10),
    };
    let store = Financials::from_repr(repr, store_options).unwrap();
    let mut back = options();
    back.cash_flows_back = 1;
    let metrics = Metrics::calculate(&store, back, &arith).unwrap();
    assert_eq!(metric(&metrics, Field::CashFlows, 0), 1.0);
    back.cash_flows_back = 2;
    let metrics = Metrics::calculate(&store, back, &arith).unwrap();
    assert_eq!(metric(&metrics, Field::CashFlows, 0), 0.0);
    back.cash_flows_back = 3;
    let metrics = Metrics::calculate(&store, back, &arith).unwrap();
    assert_eq!(metric(&metrics, Field::CashFlows, 0), 0.0);
    back.cash_flows_back = 0;
    let metrics = Metrics::calculate(&store, back, &arith).unwrap();
    assert_eq!(metric(&metrics, Field::CashFlows, 0), 1.0);
}

#[test]
fn unknown_cash_flow_counts_as_not_positive() {
    let mut report = sound();
    report.cash_flow = f32::NAN;
    let store = store_with(&[report], &[vec![10.0]]);
    let metrics = Metrics::calculate(&store, options(), &arith).unwrap();
    assert_eq!(metric(&metrics, Field::CashFlows, 0), 0.0);
}

#[test]
fn insufficient_cash_flow_data_fails_the_whole_calculation() {
    // the buy year 2020 is 3 offsets past the first year 2017
    let store = store_with(&[sound(), sound()], &[vec![10.0], vec![10.0]]);
    let mut opts = options();
    opts.cash_flows_back = 5;
    assert_eq!(
        Metrics::calculate(&store, opts, &arith).unwrap_err(),
        CalculationError::InsufficientCashFlowData
    );
    opts.cash_flows_back = 4;
    assert_eq!(
        Metrics::calculate(&store, opts, &arith).unwrap_err(),
        CalculationError::InsufficientCashFlowData
    );
    opts.cash_flows_back = 3;
    assert!(Metrics::calculate(&store, opts, &arith).is_ok());
}

#[test]
fn cash_flows_back_five_with_buy_year_two_past_the_first() {
    let mut companies = Companies::new();
    companies.insert("C0");
    let mut repr = StorageRepr::new(companies);
    for year in 2018..=2021 {
        repr.yearly.insert(year, Grid::from_elem(10, 1, bits(1.0)).unwrap());
    }
    repr.daily.insert(2020, Cube::from_elem(366, 3, 1, bits(1.0)).unwrap());
    let store_options = StoreOptions {
        yearly_min: 2018,
        yearly_max: 2021,
        daily_min: ymd(2020, 1, 1),
        daily_max: ymd(2020, 1, 10),
    };
    let store = Financials::from_repr(repr, store_options).unwrap();
    assert_eq!(store.year_to_index(2020), Ok(2));
    let mut opts = options();
    opts.cash_flows_back = 5;
    assert_eq!(
        Metrics::calculate(&store, opts, &arith).unwrap_err(),
        CalculationError::InsufficientCashFlowData
    );
}

#[test]
fn calculation_errors_come_in_order() {
    let store = store_with(&[sound()], &[vec![10.0]]);
    let mut opts = options();
    opts.sell_date = opts.buy_date;
    opts.cash_flows_back = 9;
    assert_eq!(
        Metrics::calculate(&store, opts, &arith).unwrap_err(),
        CalculationError::InvalidOptions
    );
    let mut opts = options();
    opts.buy_date = ymd(2019, 12, 31);
    opts.cash_flows_back = 9;
    assert_eq!(
        Metrics::calculate(&store, opts, &arith).unwrap_err(),
        CalculationError::OutOfRangeDate
    );
    let mut opts = options();
    opts.buy_date = ymd(2020, 1, 11);
    opts.sell_date = ymd(2020, 1, 12);
    assert_eq!(
        Metrics::calculate(&store, opts, &arith).unwrap_err(),
        CalculationError::OutOfRangeDate
    );
}

#[test]
fn buy_year_outside_the_yearly_range() {
    let mut companies = Companies::new();
    companies.insert("C0");
    let mut repr = StorageRepr::new(companies);
    for year in 2017..=2018 {
        repr.yearly.insert(year, Grid::from_elem(10, 1, bits(1.0)).unwrap());
    }
    repr.daily.insert(2020, Cube::from_elem(366, 3, 1, bits(1.0)).unwrap());
    let store_options = StoreOptions {
        yearly_min: 2017,
        yearly_max: 2018,
        daily_min: ymd(2020, 1, 1),
        daily_max: ymd(2020, 1, 10),
    };
    let store = Financials::from_repr(repr, store_options).unwrap();
    assert_eq!(
        Metrics::calculate(&store, options(), &arith).unwrap_err(),
        CalculationError::OutOfRangeYear
    );
}

#[test]
fn unconstrained_bounds_are_infinite() {
    let bounds = Bounds::unconstained();
    for i in 0..10 {
        let (min, max) = bounds.get(Field::from_index(i).unwrap());
        assert_eq!(f32::from_bits(min), f32::NEG_INFINITY);
        assert_eq!(f32::from_bits(max), f32::INFINITY);
    }
}

#[test]
fn bounds_set_changes_one_field() {
    let mut bounds = Bounds::unconstained();
    bounds.set(Field::PeRatio, (bits(1.0), bits(2.0)));
    assert_eq!(bounds.get(Field::PeRatio), (bits(1.0), bits(2.0)));
    for i in 0..10 {
        let field = Field::from_index(i).unwrap();
        if field != Field::PeRatio {
            assert_eq!(bounds.get(field), (bits(f32::NEG_INFINITY), bits(f32::INFINITY)));
        }
    }
}

#[test]
fn legacy_options_become_bounds() {
    let free = (f32::NEG_INFINITY, f32::INFINITY);
    let bounds = Bounds::from_legacy_options(&options());
    let get = |field: Field| {
        let (min, max) = bounds.get(field);
        (f32::from_bits(min), f32::from_bits(max))
    };
    assert_eq!(get(Field::BuySharePrice), free);
    assert_eq!(get(Field::CashFlows), (0.0, f32::INFINITY));
    assert_eq!(get(Field::Cnav), free);
    assert_eq!(get(Field::CnavBuySharePriceDiff), (0.0, f32::INFINITY));
    assert_eq!(get(Field::CnavNavDiff), (f32::NEG_INFINITY, 0.0));
    assert_eq!(get(Field::DebtToEquityRatio), (f32::NEG_INFINITY, 1.0));
    assert_eq!(get(Field::MarketCap), (500.0, f32::INFINITY));
    assert_eq!(get(Field::Nav), free);
    assert_eq!(get(Field::PeRatio), (f32::NEG_INFINITY, 15.0));
    assert_eq!(get(Field::PotentialRoi), (0.5, f32::INFINITY));

    let mut ignoring = options();
    ignoring.ignore_cnav_cmp = true;
    let bounds = Bounds::from_legacy_options(&ignoring);
    let (min, max) = bounds.get(Field::CnavBuySharePriceDiff);
    assert_eq!((f32::from_bits(min), f32::from_bits(max)), free);
}

fn verdicts(store: &Financials, opts: Options, ignore: &Vec<Field>) -> Vec<Evaluation> {
    let metrics = Metrics::calculate(store, opts, &arith).unwrap();
    let evaluated = Evaluator::new(&metrics).evaluate(Bounds::from_legacy_options(&opts), ignore);
    (0..store.companies().len()).map(|c| evaluated.get(c).unwrap()).collect()
}

#[test]
fn evaluation_separates_the_three_verdicts() {
    let mut indebted = sound();
    indebted.debt = 400.0;
    let mut unknown = sound();
    unknown.equity = f32::NAN;
    let store =
        store_with(&[sound(), indebted, unknown], &[vec![10.0], vec![10.0], vec![10.0]]);
    assert_eq!(
        verdicts(&store, options(), &vec![]),
        vec![Evaluation::Investable, Evaluation::NotInvestable, Evaluation::InsufficientData]
    );
}

#[test]
fn nan_in_any_metric_is_insufficient_data() {
    // shares unknown: every other field would pass
    let mut no_shares = sound();
    no_shares.shares = f32::NAN;
    // no price on the buy date
    let store = store_with(&[no_shares, sound()], &[vec![10.0], vec![f32::NAN]]);
    let all_fields: Vec<Field> = (0..10).map(|i| Field::from_index(i).unwrap()).collect();
    for ignore in [vec![], vec![Field::Nav, Field::Cnav], all_fields] {
        assert_eq!(
            verdicts(&store, options(), &ignore),
            vec![Evaluation::InsufficientData, Evaluation::InsufficientData]
        );
    }
    let metrics = Metrics::calculate(&store, options(), &arith).unwrap();
    let evaluated = Evaluator::new(&metrics).evaluate(Bounds::unconstained(), &vec![]);
    assert_eq!(evaluated.get(0), Some(Evaluation::InsufficientData));
    assert_eq!(evaluated.get(1), Some(Evaluation::InsufficientData));
    assert_eq!(evaluated.get(2), None);
    assert!(evaluated.companies_sufficient().is_empty());
}

#[test]
fn bounds_are_strict_on_both_sides() {
    let store = store_with(&[sound()], &[vec![10.0]]);
    let metrics = Metrics::calculate(&store, options(), &arith).unwrap();
    let evaluator = Evaluator::new(&metrics);
    let judge = |min: f32, max: f32| {
        let mut bounds = Bounds::unconstained();
        bounds.set(Field::PeRatio, (bits(min), bits(max)));
        evaluator.evaluate(bounds, &vec![]).get(0).unwrap()
    };
    // the ratio is 10
    assert_eq!(judge(9.0, 11.0), Evaluation::Investable);
    assert_eq!(judge(10.0, 11.0), Evaluation::NotInvestable);
    assert_eq!(judge(9.0, 10.0), Evaluation::NotInvestable);
    assert_eq!(judge(11.0, 9.0), Evaluation::NotInvestable);
    assert_eq!(judge(f32::NAN, 11.0), Evaluation::NotInvestable);
    assert_eq!(judge(9.0, f32::NAN), Evaluation::NotInvestable);
    assert_eq!(judge(9.999999, 10.000001), Evaluation::Investable);
}

#[test]
fn infinite_metric_fails_free_bounds() {
    // no earnings: the ratio is infinite and not under positive infinity
    let mut no_earnings = sound();
    no_earnings.eps = 0.0;
    let store = store_with(&[no_earnings], &[vec![10.0]]);
    let metrics = Metrics::calculate(&store, options(), &arith).unwrap();
    assert_eq!(metric(&metrics, Field::PeRatio, 0), f32::INFINITY);
    let evaluator = Evaluator::new(&metrics);
    assert_eq!(
        evaluator.evaluate(Bounds::unconstained(), &vec![]).get(0),
        Some(Evaluation::NotInvestable)
    );
    assert_eq!(
        evaluator.evaluate(Bounds::unconstained(), &vec![Field::PeRatio]).get(0),
        Some(Evaluation::Investable)
    );
}

#[test]
fn ignored_fields_are_not_checked() {
    let mut indebted = sound();
    indebted.debt = 400.0;
    let store = store_with(&[indebted], &[vec![10.0]]);
    assert_eq!(verdicts(&store, options(), &vec![]), vec![Evaluation::NotInvestable]);
    assert_eq!(
        verdicts(&store, options(), &vec![Field::DebtToEquityRatio]),
        vec![Evaluation::Investable]
    );
    assert_eq!(
        verdicts(&store, options(), &vec![Field::PeRatio, Field::MarketCap]),
        vec![Evaluation::NotInvestable]
    );
}

#[test]
fn cnav_comparison_can_be_ignored() {
    // bought at 25, above the conservative net asset value of 20
    let store = store_with(&[sound()], &[vec![25.0]]);
    assert_eq!(verdicts(&store, options(), &vec![]), vec![Evaluation::NotInvestable]);
    let mut ignoring = options();
    ignoring.ignore_cnav_cmp = true;
    assert_eq!(verdicts(&store, ignoring, &vec![]), vec![Evaluation::Investable]);
}

#[test]
fn evaluating_twice_gives_the_same_verdicts() {
    let mut indebted = sound();
    indebted.debt = 400.0;
    let mut unknown = sound();
    unknown.eps = f32::NAN;
    let store = store_with(
        &[sound(), indebted, unknown, sound()],
        &[vec![10.0], vec![10.0], vec![10.0], vec![30.0]],
    );
    let metrics = Metrics::calculate(&store, options(), &arith).unwrap();
    let evaluator = Evaluator::new(&metrics);
    let ignore = vec![Field::MarketCap];
    let first = evaluator.evaluate(Bounds::from_legacy_options(&options()), &ignore);
    let second = evaluator.evaluate(Bounds::from_legacy_options(&options()), &ignore);
    for c in 0..5 {
        assert_eq!(first.get(c), second.get(c));
    }
    assert_eq!(first.companies_investable(), second.companies_investable());
    assert_eq!(first.companies_sufficient(), second.companies_sufficient());
}

#[test]
fn company_queries_ascend_by_identifier() {
    let mut indebted = sound();
    indebted.debt = 400.0;
    let mut unknown = sound();
    unknown.eps = f32::NAN;
    let store = store_with(
        &[unknown, sound(), indebted, sound(), unknown, sound()],
        &[vec![10.0], vec![10.0], vec![10.0], vec![10.0], vec![10.0], vec![10.0]],
    );
    let metrics = Metrics::calculate(&store, options(), &arith).unwrap();
    let evaluated =
        Evaluator::new(&metrics).evaluate(Bounds::from_legacy_options(&options()), &vec![]);
    assert_eq!(evaluated.companies_sufficient(), vec![1, 2, 3, 5]);
    assert_eq!(evaluated.companies_investable(), vec![1, 3, 5]);
    // the queries can be asked again
    assert_eq!(evaluated.companies_investable(), vec![1, 3, 5]);
}

#[test]
fn backtrack_first_crossing() {
    let prices: Vec<u32> = [90.0, 150.0, 200.0, 80.0].into_iter().map(bits).collect();
    let target = arith(Operation::Multiply, bits(100.0), arith(Operation::Add, bits(1.0), bits(0.5)));
    assert_eq!(f32::from_bits(target), 150.0);
    assert_eq!(
        classify(&prices, bits(100.0), target),
        (bits(150.0), BacktrackResult::ReachedReturnPercent)
    );
    let prices: Vec<u32> = [90.0, 140.0, 200.0, 80.0].into_iter().map(bits).collect();
    assert_eq!(
        classify(&prices, bits(100.0), target),
        (bits(200.0), BacktrackResult::ReachedReturnPercent)
    );
}

#[test]
fn backtrack_no_crossing_gain() {
    let prices: Vec<u32> = [90.0, 95.0, 110.0].into_iter().map(bits).collect();
    assert_eq!(
        classify(&prices, bits(100.0), bits(150.0)),
        (bits(110.0), BacktrackResult::GainAtEnd)
    );
}

#[test]
fn backtrack_no_crossing_loss() {
    let prices: Vec<u32> = [90.0, 95.0, 80.0].into_iter().map(bits).collect();
    assert_eq!(
        classify(&prices, bits(100.0), bits(150.0)),
        (bits(80.0), BacktrackResult::LossAtEnd)
    );
}

#[test]
fn backtrack_last_price_at_buy_price_is_a_loss() {
    let prices: Vec<u32> = [90.0, 100.0].into_iter().map(bits).collect();
    assert_eq!(
        classify(&prices, bits(100.0), bits(150.0)),
        (bits(100.0), BacktrackResult::LossAtEnd)
    );
}

#[test]
fn backtrack_unknown_prices_never_reach() {
    let prices: Vec<u32> = [f32::NAN, 120.0, f32::NAN].into_iter().map(bits).collect();
    let (price, result) = classify(&prices, bits(100.0), bits(110.0));
    assert_eq!((f32::from_bits(price), result), (120.0, BacktrackResult::ReachedReturnPercent));
    let (price, result) = classify(&prices, bits(100.0), bits(150.0));
    assert!(f32::from_bits(price).is_nan());
    assert_eq!(result, BacktrackResult::LossAtEnd);
    let (_, result) = classify(&prices, bits(100.0), bits(f32::NAN));
    assert_eq!(result, BacktrackResult::LossAtEnd);
}

#[test]
fn backtrack_follows_investable_companies_only() {
    let mut indebted = sound();
    indebted.debt = 400.0;
    let mut unknown = sound();
    unknown.eps = f32::NAN;
    // windows from the buy date 2020-01-02 to the sell date 2020-01-06
    let store = store_with(
        &[sound(), indebted, sound(), unknown, sound(), sound()],
        &[
            vec![10.0, 9.0, 15.0, 20.0, 8.0, 99.0],
            vec![10.0, 30.0, 30.0, 30.0, 30.0],
            vec![10.0, 9.0, 9.5, 14.0, 11.0, 99.0],
            vec![10.0, 30.0, 30.0, 30.0, 30.0],
            vec![10.0, 9.0, 9.5, 14.0, 8.0, 99.0],
            vec![10.0, 9.0, 9.5, 14.9, 10.0, 99.0],
        ],
    );
    let metrics = Metrics::calculate(&store, options(), &arith).unwrap();
    let evaluated =
        Evaluator::new(&metrics).evaluate(Bounds::from_legacy_options(&options()), &vec![]);
    assert_eq!(evaluated.companies_investable(), vec![0, 2, 4, 5]);
    let backtracked = evaluated.backtrack(&arith);
    assert_eq!(
        backtracked.companies_which(BacktrackResult::ReachedReturnPercent),
        vec![(0, bits(15.0))]
    );
    assert_eq!(backtracked.companies_which(BacktrackResult::GainAtEnd), vec![(2, bits(11.0))]);
    assert_eq!(
        backtracked.companies_which(BacktrackResult::LossAtEnd),
        vec![(4, bits(8.0)), (5, bits(10.0))]
    );
    let stats = backtracked.stats();
    assert_eq!(
        stats,
        BacktrackStatistics { n_reached_percent: 1, n_gain_at_end: 1, n_loss_at_end: 2 }
    );
}

#[test]
fn backtrack_window_ends_at_the_sell_date() {
    // the target 15 is reached only after the sell date
    let store = store_with(&[sound()], &[vec![10.0, 11.0, 11.0, 11.0, 12.0, 15.0, 15.0]]);
    let metrics = Metrics::calculate(&store, options(), &arith).unwrap();
    let evaluated =
        Evaluator::new(&metrics).evaluate(Bounds::from_legacy_options(&options()), &vec![]);
    let backtracked = evaluated.backtrack(&arith);
    assert_eq!(backtracked.companies_which(BacktrackResult::GainAtEnd), vec![(0, bits(12.0))]);
    let mut longer = options();
    longer.sell_date = ymd(2020, 1, 7);
    let metrics = Metrics::calculate(&store, longer, &arith).unwrap();
    let evaluated =
        Evaluator::new(&metrics).evaluate(Bounds::from_legacy_options(&longer), &vec![]);
    let backtracked = evaluated.backtrack(&arith);
    assert_eq!(
        backtracked.companies_which(BacktrackResult::ReachedReturnPercent),
        vec![(0, bits(15.0))]
    );
}

#[test]
fn backtrack_without_investable_companies() {
    let mut indebted = sound();
    indebted.debt = 400.0;
    let store = store_with(&[indebted], &[vec![10.0, 30.0, 30.0, 30.0, 30.0]]);
    let metrics = Metrics::calculate(&store, options(), &arith).unwrap();
    let evaluated =
        Evaluator::new(&metrics).evaluate(Bounds::from_legacy_options(&options()), &vec![]);
    let backtracked = evaluated.backtrack(&arith);
    assert_eq!(backtracked.stats(), BacktrackStatistics::default());
    assert!(backtracked.companies_which(BacktrackResult::ReachedReturnPercent).is_empty());
    assert!(backtracked.companies_which(BacktrackResult::GainAtEnd).is_empty());
    assert!(backtracked.companies_which(BacktrackResult::LossAtEnd).is_empty());
}

#[test]
fn default_statistics_are_zero() {
    let stats = BacktrackStatistics::default();
    assert_eq!(stats.n_reached_percent, 0);
    assert_eq!(stats.n_gain_at_end, 0);
    assert_eq!(stats.n_loss_at_end, 0);
}
