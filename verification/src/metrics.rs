//! Valuation metrics of every company as of a buy date, the filter that
//! tells which companies are worth buying, and the look at what became of
//! those that were.
//!
//! Numbers are binary32 bit patterns. Whoever calls into this file brings
//! the arithmetic: a function from an [`Operation`] and two numbers to a
//! number. The contracts say which operation is applied to which cells;
//! what an operation returns is what that function's own contract says.

use crate::date::Date;
use crate::fields::DailyField;
use crate::fields::YearlyField;
use crate::financials::Financials;
use crate::scalar::at_most;
use crate::scalar::indicator;
use crate::scalar::le;
use crate::scalar::less;
use crate::scalar::lt;
use crate::scalar::nan;
use crate::scalar::is_nan;
use crate::scalar::INFINITY;
use crate::scalar::NAN;
use crate::scalar::NEG_INFINITY;
use crate::scalar::ONE;
use crate::scalar::TWO;
use crate::scalar::ZERO;
use crate::table::cube_dim;
use crate::table::cube_get;
use crate::table::grid_from_elem;
use crate::table::grid_get;
use crate::table::grid_set;
use crate::table::Grid;
use crate::util::CompanyId;
use crate::util::CountVariants;
use crate::util::IndexEnum;
use vstd::prelude::*;

verus! {

/// One of the four operations of arithmetic on binary32 numbers.
#[derive(Clone, Copy, Debug, PartialEq, Eq, Structural)]
pub enum Operation {
    /// The first number plus the second.
    Add,
    /// The first number minus the second.
    Subtract,
    /// The first number times the second.
    Multiply,
    /// The first number divided by the second.
    Divide,
}

/// What governs a run: when to buy and to sell, and the thresholds that a
/// company has to meet.
#[derive(Debug, Clone, Copy)]
pub struct Options {
    /// The day on which the shares are bought.
    pub buy_date: Date,
    /// The day on which the look ahead ends.
    pub sell_date: Date,
    /// How many years before the year of the buy date the cash flows are
    /// looked at; the year of the buy date is looked at as well.
    pub cash_flows_back: usize,
    /// The price to earnings ratio that a company must stay under.
    pub max_pe_ratio: u32,
    /// The debt to equity ratio that a company must stay under.
    pub max_debt_to_equity: u32,
    /// The potential return that a company must exceed.
    pub min_potential_roi: u32,
    /// The market capitalisation that a company must exceed.
    pub min_market_cap: u32,
    /// The gain, as a part of the buy price, that counts as reached.
    pub return_percent: u32,
    /// Whether the conservative net asset value may lie under the buy
    /// price.
    pub ignore_cnav_cmp: bool,
}

/// The options contradict themselves.
#[derive(Debug, Clone, Copy, PartialEq, Eq, Structural)]
pub struct OptionsError;

impl Options {
    /// The buy date lies before the sell date.
    pub open spec fn ok(&self) -> bool {
        &&& self.buy_date.wf()
        &&& self.sell_date.wf()
        &&& self.buy_date.days() < self.sell_date.days()
    }

    /// Accepts the options if the buy date lies before the sell date.
    pub fn verify(&self) -> (r: Result<(), OptionsError>)
        ensures
            r is Ok <==> self.ok(),
    {
        if self.buy_date.ge(&self.sell_date) {
            Err(OptionsError)
        } else {
            Ok(())
        }
    }
}

/// The metrics of a company. The order of the variants is the order of the
/// rows of the metrics table.
#[derive(Clone, Copy, Debug, PartialEq, Eq, Structural, Hash)]
pub enum Field {
    BuySharePrice,
    CashFlows,
    Cnav,
    CnavBuySharePriceDiff,
    CnavNavDiff,
    DebtToEquityRatio,
    MarketCap,
    Nav,
    PeRatio,
    PotentialRoi,
}

impl CountVariants for Field {
    open spec fn variant_count() -> nat {
        10
    }

    fn count_variants() -> (n: usize) {
        10
    }
}

impl IndexEnum for Field {
    open spec fn position(&self) -> nat {
        match self {
            Field::BuySharePrice => 0,
            Field::CashFlows => 1,
            Field::Cnav => 2,
            Field::CnavBuySharePriceDiff => 3,
            Field::CnavNavDiff => 4,
            Field::DebtToEquityRatio => 5,
            Field::MarketCap => 6,
            Field::Nav => 7,
            Field::PeRatio => 8,
            Field::PotentialRoi => 9,
        }
    }

    fn index(&self) -> (i: usize) {
        match self {
            Field::BuySharePrice => 0,
            Field::CashFlows => 1,
            Field::Cnav => 2,
            Field::CnavBuySharePriceDiff => 3,
            Field::CnavNavDiff => 4,
            Field::DebtToEquityRatio => 5,
            Field::MarketCap => 6,
            Field::Nav => 7,
            Field::PeRatio => 8,
            Field::PotentialRoi => 9,
        }
    }

    fn from_index(i: usize) -> (r: Option<Self>) {
        match i {
            0 => Some(Field::BuySharePrice),
            1 => Some(Field::CashFlows),
            2 => Some(Field::Cnav),
            3 => Some(Field::CnavBuySharePriceDiff),
            4 => Some(Field::CnavNavDiff),
            5 => Some(Field::DebtToEquityRatio),
            6 => Some(Field::MarketCap),
            7 => Some(Field::Nav),
            8 => Some(Field::PeRatio),
            9 => Some(Field::PotentialRoi),
            _ => None,
        }
    }

    proof fn lemma_position(a: Self, b: Self) {
    }
}

/// Why the metrics could not be calculated.
#[derive(Debug, Clone, Copy, PartialEq, Eq, Structural)]
pub enum CalculationError {
    /// The buy date does not lie before the sell date.
    InvalidOptions,
    /// The store does not cover the buy date.
    OutOfRangeDate,
    /// The store does not cover the year of the buy date.
    OutOfRangeYear,
    /// The store does not reach as many years back as the cash flows are
    /// asked for.
    InsufficientCashFlowData,
}

/// Whether `arith` may return `r` for `op` on `a` and `b`.
pub open spec fn computes<A: Fn(Operation, u32, u32) -> u32>(
    arith: &A,
    op: Operation,
    a: u32,
    b: u32,
    r: u32,
) -> bool {
    call_ensures(*arith, (op, a, b), r)
}

/// Whether `arith` takes every operation on every pair of numbers.
pub open spec fn total<A: Fn(Operation, u32, u32) -> u32>(arith: &A) -> bool {
    forall|op: Operation, a: u32, b: u32| call_requires(*arith, (op, a, b))
}

fn apply<A: Fn(Operation, u32, u32) -> u32>(arith: &A, op: Operation, a: u32, b: u32) -> (r: u32)
    requires
        total(arith),
    ensures
        computes(arith, op, a, b, r),
{
    arith(op, a, b)
}

/// The metrics of one company, by name.
#[derive(Clone, Copy, Debug)]
pub struct CompanyMetrics {
    pub buy_share_price: u32,
    pub cash_flows: u32,
    pub cnav: u32,
    pub cnav_buy_share_price_diff: u32,
    pub cnav_nav_diff: u32,
    pub debt_to_equity_ratio: u32,
    pub market_cap: u32,
    pub nav: u32,
    pub pe_ratio: u32,
    pub potential_roi: u32,
}

/// The cell of the yearly table for the year at offset `year_i`, `field`
/// and company `c`.
pub open spec fn yearly_cell(store: Financials, year_i: int, field: YearlyField, c: int) -> u32 {
    store.yearly_of().at(year_i, field.position() as int, c)
}

/// The high share price of company `c` on the day at offset `date_i`.
pub open spec fn high_price(store: Financials, date_i: int, c: int) -> u32 {
    store.daily_of().at(date_i, DailyField::HighSharePrice.position() as int, c)
}

/// Whether the cash flow of company `c` is above zero in every year from
/// offset `from` to offset `to`, both included.
pub open spec fn cash_flows_positive(store: Financials, from: int, to: int, c: int) -> bool {
    forall|y: int|
        from <= y <= to ==> less(ZERO, #[trigger] yearly_cell(store, y, YearlyField::CashFlow, c))
}

/// Whether `nav` is assets less liabilities, by share.
pub open spec fn nav_of<A: Fn(Operation, u32, u32) -> u32>(
    arith: &A,
    assets: u32,
    liabilities: u32,
    shares: u32,
    nav: u32,
) -> bool {
    exists|net: u32|
        computes(arith, Operation::Subtract, assets, liabilities, net) && computes(
            arith,
            Operation::Divide,
            net,
            shares,
            nav,
        )
}

/// Whether `cnav` is half of the property, plant and equipment plus cash
/// and short term investments less liabilities, by share.
pub open spec fn cnav_of<A: Fn(Operation, u32, u32) -> u32>(
    arith: &A,
    ppe: u32,
    cash: u32,
    liabilities: u32,
    shares: u32,
    cnav: u32,
) -> bool {
    exists|half: u32, good: u32, net: u32|
        computes(arith, Operation::Divide, ppe, TWO, half) && computes(
            arith,
            Operation::Add,
            half,
            cash,
            good,
        ) && computes(arith, Operation::Subtract, good, liabilities, net) && computes(
            arith,
            Operation::Divide,
            net,
            shares,
            cnav,
        )
}

/// Whether `roi` is the net asset value less the conservative one, by the
/// conservative one.
pub open spec fn roi_of<A: Fn(Operation, u32, u32) -> u32>(
    arith: &A,
    nav: u32,
    cnav: u32,
    roi: u32,
) -> bool {
    exists|gap: u32|
        computes(arith, Operation::Subtract, nav, cnav, gap) && computes(
            arith,
            Operation::Divide,
            gap,
            cnav,
            roi,
        )
}

/// Whether `m` holds the metrics of company `c` as of the year at offset
/// `year_i` and the day at offset `date_i`, with the cash flows of `back`
/// years before that year looked at:
///
/// - the buy share price is the high share price of the day;
/// - the net asset value is assets less liabilities, by share;
/// - the conservative net asset value is half of the property, plant and
///   equipment plus cash and short term investments less liabilities, by
///   share;
/// - the price to earnings ratio is the share price at the report by the
///   earnings per share;
/// - the debt to equity ratio is debt by shareholders' equity;
/// - the potential return is the net asset value less the conservative
///   one, by the conservative one;
/// - the market capitalisation is shares times the share price at the
///   report;
/// - the two differences are the conservative net asset value less the net
///   asset value, and less the buy share price;
/// - the cash flows are one if the cash flow of every year of the window
///   is above zero, else zero.
pub open spec fn derives<A: Fn(Operation, u32, u32) -> u32>(
    arith: &A,
    store: Financials,
    year_i: int,
    date_i: int,
    back: int,
    c: int,
    m: CompanyMetrics,
) -> bool {
    let cash = yearly_cell(store, year_i, YearlyField::CashShortTermInvestments, c);
    let ppe = yearly_cell(store, year_i, YearlyField::Ppe, c);
    let liabilities = yearly_cell(store, year_i, YearlyField::TotalLiabilities, c);
    let assets = yearly_cell(store, year_i, YearlyField::TotalAssets, c);
    let debt = yearly_cell(store, year_i, YearlyField::TotalDebt, c);
    let equity = yearly_cell(store, year_i, YearlyField::TotalShareholdersEquity, c);
    let shares = yearly_cell(store, year_i, YearlyField::TotalOutstandingShares, c);
    let eps = yearly_cell(store, year_i, YearlyField::Eps, c);
    let price = yearly_cell(store, year_i, YearlyField::SharePriceAtReport, c);
    &&& m.buy_share_price == high_price(store, date_i, c)
    &&& m.cash_flows == indicator(cash_flows_positive(store, year_i - back, year_i, c))
    &&& nav_of(arith, assets, liabilities, shares, m.nav)
    &&& cnav_of(arith, ppe, cash, liabilities, shares, m.cnav)
    &&& computes(arith, Operation::Divide, price, eps, m.pe_ratio)
    &&& computes(arith, Operation::Divide, debt, equity, m.debt_to_equity_ratio)
    &&& roi_of(arith, m.nav, m.cnav, m.potential_roi)
    &&& computes(arith, Operation::Multiply, shares, price, m.market_cap)
    &&& computes(arith, Operation::Subtract, m.cnav, m.nav, m.cnav_nav_diff)
    &&& computes(arith, Operation::Subtract, m.cnav, m.buy_share_price, m.cnav_buy_share_price_diff)
}

/// The metrics that the column `c` of `data` holds.
pub open spec fn column_of(data: Grid, c: int) -> CompanyMetrics {
    CompanyMetrics {
        buy_share_price: data.at(0, c),
        cash_flows: data.at(1, c),
        cnav: data.at(2, c),
        cnav_buy_share_price_diff: data.at(3, c),
        cnav_nav_diff: data.at(4, c),
        debt_to_equity_ratio: data.at(5, c),
        market_cap: data.at(6, c),
        nav: data.at(7, c),
        pe_ratio: data.at(8, c),
        potential_roi: data.at(9, c),
    }
}

/// The metrics of every company as of a buy date: one row for each
/// [`Field`], one column for each company.
#[derive(Debug)]
pub struct Metrics<'a> {
    data: Grid,
    financials: &'a Financials,
    options: Options,
}

/// Tells whether the cash flow of company `c` is above zero in every year
/// from offset `from` to offset `to`.
fn positive_cash_flows(store: &Financials, from: usize, to: usize, c: usize) -> (r: bool)
    requires
        store.wf(),
        from <= to < store.options_of().n_years(),
        c < store.n_companies(),
    ensures
        r == cash_flows_positive(*store, from as int, to as int, c as int),
{
    let yearly = store.yearly();
    let (len, _, _) = cube_dim(yearly);
    let mut y: usize = from;
    while y <= to
        invariant
            from <= y <= to + 1,
            to < len,
            to < store.options_of().n_years(),
            c < store.n_companies(),
            store.wf(),
            *yearly == store.yearly_of(),
            forall|q: int|
                from <= q < y ==> less(
                    ZERO,
                    #[trigger] yearly_cell(*store, q, YearlyField::CashFlow, c as int),
                ),
        decreases to + 1 - y,
    {
        let flow = cube_get(yearly, y, YearlyField::CashFlow.index(), c);
        if !lt(ZERO, flow) {
            assert(!less(ZERO, yearly_cell(*store, y as int, YearlyField::CashFlow, c as int)));
            return false;
        }
        y += 1;
    }
    true
}

/// Calculates the metrics of company `c`.
fn company_metrics<A: Fn(Operation, u32, u32) -> u32>(
    arith: &A,
    store: &Financials,
    year_i: usize,
    date_i: usize,
    back: usize,
    c: usize,
) -> (m: CompanyMetrics)
    requires
        total(arith),
        store.wf(),
        back <= year_i < store.options_of().n_years(),
        date_i < store.options_of().n_days(),
        c < store.n_companies(),
    ensures
        derives(arith, *store, year_i as int, date_i as int, back as int, c as int, m),
{
    let yearly = store.yearly();
    let daily = store.daily();
    let cash = cube_get(yearly, year_i, YearlyField::CashShortTermInvestments.index(), c);
    let ppe = cube_get(yearly, year_i, YearlyField::Ppe.index(), c);
    let liabilities = cube_get(yearly, year_i, YearlyField::TotalLiabilities.index(), c);
    let assets = cube_get(yearly, year_i, YearlyField::TotalAssets.index(), c);
    let debt = cube_get(yearly, year_i, YearlyField::TotalDebt.index(), c);
    let equity = cube_get(yearly, year_i, YearlyField::TotalShareholdersEquity.index(), c);
    let shares = cube_get(yearly, year_i, YearlyField::TotalOutstandingShares.index(), c);
    let eps = cube_get(yearly, year_i, YearlyField::Eps.index(), c);
    let price = cube_get(yearly, year_i, YearlyField::SharePriceAtReport.index(), c);

    let buy_share_price = cube_get(daily, date_i, DailyField::HighSharePrice.index(), c);

    let net_assets = apply(arith, Operation::Subtract, assets, liabilities);
    let nav = apply(arith, Operation::Divide, net_assets, shares);

    let half_ppe = apply(arith, Operation::Divide, ppe, TWO);
    let total_good_assets = apply(arith, Operation::Add, half_ppe, cash);
    let net_good_assets = apply(arith, Operation::Subtract, total_good_assets, liabilities);
    let cnav = apply(arith, Operation::Divide, net_good_assets, shares);

    let pe_ratio = apply(arith, Operation::Divide, price, eps);
    let debt_to_equity_ratio = apply(arith, Operation::Divide, debt, equity);

    let gap = apply(arith, Operation::Subtract, nav, cnav);
    let potential_roi = apply(arith, Operation::Divide, gap, cnav);

    let market_cap = apply(arith, Operation::Multiply, shares, price);
    let cnav_nav_diff = apply(arith, Operation::Subtract, cnav, nav);
    let cnav_buy_share_price_diff = apply(arith, Operation::Subtract, cnav, buy_share_price);

    let flows = positive_cash_flows(store, year_i - back, year_i, c);
    let cash_flows = if flows { ONE } else { ZERO };

    proof {
        assert(computes(arith, Operation::Subtract, assets, liabilities, net_assets) && computes(
            arith,
            Operation::Divide,
            net_assets,
            shares,
            nav,
        ));
        assert(nav_of(arith, assets, liabilities, shares, nav));
        assert(computes(arith, Operation::Divide, ppe, TWO, half_ppe) && computes(
            arith,
            Operation::Add,
            half_ppe,
            cash,
            total_good_assets,
        ) && computes(arith, Operation::Subtract, total_good_assets, liabilities, net_good_assets)
            && computes(arith, Operation::Divide, net_good_assets, shares, cnav));
        assert(cnav_of(arith, ppe, cash, liabilities, shares, cnav));
        assert(computes(arith, Operation::Subtract, nav, cnav, gap) && computes(
            arith,
            Operation::Divide,
            gap,
            cnav,
            potential_roi,
        ));
        assert(roi_of(arith, nav, cnav, potential_roi));
    }
    CompanyMetrics {
        buy_share_price,
        cash_flows,
        cnav,
        cnav_buy_share_price_diff,
        cnav_nav_diff,
        debt_to_equity_ratio,
        market_cap,
        nav,
        pe_ratio,
        potential_roi,
    }
}

/// Writes the metrics of company `c` into column `c`.
fn store_column(data: &mut Grid, c: usize, m: CompanyMetrics)
    requires
        old(data).rows() == 10,
        c < old(data).cols(),
    ensures
        final(data).rows() == 10,
        final(data).cols() == old(data).cols(),
        column_of(*final(data), c as int) == m,
        forall|i: int, j: int|
            0 <= i < 10 && 0 <= j < old(data).cols() && j != c ==> #[trigger] final(data).at(i, j)
                == old(data).at(i, j),
{
    grid_set(data, 0, c, m.buy_share_price);
    grid_set(data, 1, c, m.cash_flows);
    grid_set(data, 2, c, m.cnav);
    grid_set(data, 3, c, m.cnav_buy_share_price_diff);
    grid_set(data, 4, c, m.cnav_nav_diff);
    grid_set(data, 5, c, m.debt_to_equity_ratio);
    grid_set(data, 6, c, m.market_cap);
    grid_set(data, 7, c, m.nav);
    grid_set(data, 8, c, m.pe_ratio);
    grid_set(data, 9, c, m.potential_roi);
}

impl<'a> Metrics<'a> {
    /// The table: one row for each field, one column for each company.
    pub closed spec fn data_of(&self) -> Grid {
        self.data
    }

    /// The store that the metrics were calculated from.
    pub closed spec fn financials_of(&self) -> Financials {
        *self.financials
    }

    /// The options that the metrics were calculated for.
    pub closed spec fn options_of(&self) -> Options {
        self.options
    }

    /// The metrics of company `c`.
    pub open spec fn company(&self, c: int) -> CompanyMetrics {
        column_of(self.data_of(), c)
    }

    /// The table has a row for each field and a column for each company of
    /// the store, the buy date lies before the sell date, and the store
    /// covers the buy date.
    #[verifier::type_invariant]
    pub open spec fn wf(&self) -> bool {
        &&& self.financials_of().wf()
        &&& self.options_of().ok()
        &&& self.data_of().rows() == 10
        &&& self.data_of().cols() == self.financials_of().n_companies()
        &&& self.financials_of().date_index(self.options_of().buy_date) is Some
    }

    /// Calculates the metrics of every company of `financials` as of the
    /// buy date of `options`: from the yearly fields of the year of that
    /// date, the high share price of that date, and the cash flows of that
    /// year and of as many years before it as the options ask for. `arith`
    /// does the arithmetic.
    pub fn calculate<A: Fn(Operation, u32, u32) -> u32>(
        financials: &'a Financials,
        options: Options,
        arith: &A,
    ) -> (r: Result<Metrics<'a>, CalculationError>)
        requires
            total(arith),
        ensures
            match r {
                Ok(m) => {
                    &&& m.wf()
                    &&& m.financials_of() == *financials
                    &&& m.options_of() == options
                    &&& financials.date_index(options.buy_date) matches Some(date_i)
                    &&& financials.year_index(options.buy_date.year_of()) matches Some(year_i)
                    &&& options.cash_flows_back <= year_i
                    &&& forall|c: int|
                        0 <= c < financials.n_companies() ==> #[trigger] derives(
                            arith,
                            *financials,
                            year_i,
                            date_i,
                            options.cash_flows_back as int,
                            c,
                            m.company(c),
                        )
                },
                Err(CalculationError::InvalidOptions) => !options.ok(),
                Err(CalculationError::OutOfRangeDate) => options.ok() && financials.date_index(
                    options.buy_date,
                ) is None,
                Err(CalculationError::OutOfRangeYear) => options.ok() && financials.date_index(
                    options.buy_date,
                ) is Some && financials.year_index(options.buy_date.year_of()) is None,
                Err(CalculationError::InsufficientCashFlowData) => options.ok()
                    && financials.date_index(options.buy_date) is Some && (financials.year_index(
                    options.buy_date.year_of(),
                ) matches Some(year_i) && year_i < options.cash_flows_back),
            },
    {
        if options.verify().is_err() {
            return Err(CalculationError::InvalidOptions);
        }
        let date_i = match financials.date_to_index(options.buy_date) {
            Ok(i) => i,
            Err(_) => {
                return Err(CalculationError::OutOfRangeDate);
            },
        };
        let year = options.buy_date.year();
        let year_i = match financials.year_to_index(year) {
            Ok(i) => i,
            Err(_) => {
                return Err(CalculationError::OutOfRangeYear);
            },
        };
        let back = options.cash_flows_back;
        if year_i < back {
            return Err(CalculationError::InsufficientCashFlowData);
        }
        let n = financials.companies().len();
        proof {
            let wide = crate::table::positive(n as int);
            let years = financials.options_of().n_years();
            assert(10 * wide * 1 * 4 <= years * 10 * wide * 4) by (nonlinear_arith)
                requires
                    years >= 1,
                    wide >= 1,
            ;
        }
        let mut data = grid_from_elem(10, n, NAN);
        let mut c: usize = 0;
        while c < n
            invariant
                c <= n,
                n == financials.n_companies(),
                total(arith),
                financials.wf(),
                back <= year_i < financials.options_of().n_years(),
                date_i < financials.options_of().n_days(),
                data.rows() == 10,
                data.cols() == n,
                forall|q: int|
                    0 <= q < c ==> #[trigger] derives(
                        arith,
                        *financials,
                        year_i as int,
                        date_i as int,
                        back as int,
                        q,
                        column_of(data, q),
                    ),
            decreases n - c,
        {
            let m = company_metrics(arith, financials, year_i, date_i, back, c);
            let ghost before = data;
            store_column(&mut data, c, m);
            assert forall|q: int| 0 <= q < c + 1 implies #[trigger] derives(
                arith,
                *financials,
                year_i as int,
                date_i as int,
                back as int,
                q,
                column_of(data, q),
            ) by {
                if q < c {
                    assert(column_of(data, q) == column_of(before, q));
                }
            }
            c += 1;
        }
        Ok(Metrics { data, financials, options })
    }

    /// The metric `field` of every company, by company identifier.
    pub fn get_metric(&self, field: Field) -> (r: Vec<u32>)
        ensures
            self.wf(),
            r@.len() == self.financials_of().n_companies(),
            forall|c: int|
                0 <= c < r@.len() ==> #[trigger] r@[c] == self.data_of().at(
                    field.position() as int,
                    c,
                ),
    {
        proof {
            use_type_invariant(self);
        }
        match self.data.row(field.index()) {
            Some(v) => v,
            None => Vec::new(),
        }
    }

    /// The metrics of company `company_index`, in the order of the fields;
    /// none where there is no such company.
    pub fn get_company(&self, company_index: CompanyId) -> (r: Option<Vec<u32>>)
        ensures
            self.wf(),
            r is Some <==> company_index < self.financials_of().n_companies(),
            r matches Some(v) ==> v@.len() == 10 && forall|f: int|
                0 <= f < 10 ==> #[trigger] v@[f] == self.data_of().at(f, company_index as int),
    {
        proof {
            use_type_invariant(self);
        }
        self.data.column(company_index)
    }

    /// The table itself.
    pub fn inner(&self) -> (r: &Grid)
        ensures
            *r == self.data_of(),
            self.wf(),
    {
        proof {
            use_type_invariant(self);
        }
        &self.data
    }
}

/// For each metric the two numbers that a company's value must lie
/// between, neither of them allowed.
#[derive(Debug)]
pub struct Bounds {
    inner: [(u32, u32); 10],
}

/// The bounds that the thresholds of `options` put on `field`.
pub open spec fn legacy_bound(options: Options, field: Field) -> (u32, u32) {
    match field {
        Field::CnavBuySharePriceDiff => if options.ignore_cnav_cmp {
            (NEG_INFINITY, INFINITY)
        } else {
            (ZERO, INFINITY)
        },
        Field::CashFlows => (ZERO, INFINITY),
        Field::CnavNavDiff => (NEG_INFINITY, ZERO),
        Field::DebtToEquityRatio => (NEG_INFINITY, options.max_debt_to_equity),
        Field::MarketCap => (options.min_market_cap, INFINITY),
        Field::PeRatio => (NEG_INFINITY, options.max_pe_ratio),
        Field::PotentialRoi => (options.min_potential_roi, INFINITY),
        Field::BuySharePrice => (NEG_INFINITY, INFINITY),
        Field::Cnav => (NEG_INFINITY, INFINITY),
        Field::Nav => (NEG_INFINITY, INFINITY),
    }
}

impl Bounds {
    /// The bounds of `field`: the lower one first.
    pub closed spec fn bound(&self, field: Field) -> (u32, u32) {
        self.inner@[field.position() as int]
    }

    /// Bounds that leave every metric free: from negative to positive
    /// infinity.
    pub fn unconstained() -> (r: Bounds)
        ensures
            forall|field: Field| #[trigger] r.bound(field) == (NEG_INFINITY, INFINITY),
    {
        let free = (NEG_INFINITY, INFINITY);
        Bounds { inner: [free, free, free, free, free, free, free, free, free, free] }
    }

    /// The bounds that stand for the thresholds of `options`.
    pub fn from_legacy_options(options: &Options) -> (r: Bounds)
        ensures
            forall|field: Field| #[trigger] r.bound(field) == legacy_bound(*options, field),
    {
        let mut bounds = Self::unconstained();
        if !options.ignore_cnav_cmp {
            bounds.set(Field::CnavBuySharePriceDiff, (ZERO, INFINITY));
        }
        bounds.set(Field::CashFlows, (ZERO, INFINITY));
        bounds.set(Field::CnavNavDiff, (NEG_INFINITY, ZERO));
        bounds.set(Field::DebtToEquityRatio, (NEG_INFINITY, options.max_debt_to_equity));
        bounds.set(Field::MarketCap, (options.min_market_cap, INFINITY));
        bounds.set(Field::PeRatio, (NEG_INFINITY, options.max_pe_ratio));
        bounds.set(Field::PotentialRoi, (options.min_potential_roi, INFINITY));
        bounds
    }

    /// Puts `new_bounds` on `field` and leaves the other fields as they
    /// are.
    pub fn set(&mut self, field: Field, new_bounds: (u32, u32))
        ensures
            forall|other: Field| #[trigger]
                final(self).bound(other) == (if other == field {
                    new_bounds
                } else {
                    old(self).bound(other)
                }),
    {
        let at = field.index();
        self.inner[at] = new_bounds;
        assert forall|other: Field| #[trigger]
            self.bound(other) == (if other == field {
                new_bounds
            } else {
                old(self).bound(other)
            }) by {
            Field::lemma_position(other, field);
        }
    }

    /// The bounds of `field`.
    pub fn get(&self, field: Field) -> (r: (u32, u32))
        ensures
            r == self.bound(field),
    {
        self.inner[field.index()]
    }
}

/// What the filter says of a company.
#[derive(Debug, PartialEq, Eq, Clone, Copy, Structural)]
pub enum Evaluation {
    /// A metric of the company is unknown.
    InsufficientData,
    /// Every metric that counts lies inside its bounds.
    Investable,
    /// A metric that counts lies outside its bounds.
    NotInvestable,
}

/// Whether a metric of company `c` is a NaN.
pub open spec fn insufficient(data: Grid, c: int) -> bool {
    exists|f: int| 0 <= f < 10 && nan(#[trigger] data.at(f, c))
}

/// Whether `value` lies above the lower and under the upper bound of
/// `field`.
pub open spec fn admits(bounds: Bounds, field: Field, value: u32) -> bool {
    less(bounds.bound(field).0, value) && less(value, bounds.bound(field).1)
}

/// Whether every metric of company `c` but those of `ignore` lies inside
/// its bounds.
pub open spec fn passes(data: Grid, bounds: Bounds, ignore: Seq<Field>, c: int) -> bool {
    forall|field: Field|
        !ignore.contains(field) ==> #[trigger] admits(
            bounds,
            field,
            data.at(field.position() as int, c),
        )
}

/// What the filter says of company `c`: insufficient data as soon as one
/// metric is a NaN, whatever the bounds; else investable or not as the
/// metrics pass the bounds.
pub open spec fn verdict(data: Grid, bounds: Bounds, ignore: Seq<Field>, c: int) -> Evaluation {
    if insufficient(data, c) {
        Evaluation::InsufficientData
    } else if passes(data, bounds, ignore, c) {
        Evaluation::Investable
    } else {
        Evaluation::NotInvestable
    }
}

/// The filter over the metrics of a run.
#[derive(Debug)]
pub struct Evaluator<'a> {
    metrics: &'a Metrics<'a>,
}

/// The verdicts of the filter, one for each company.
#[derive(Debug)]
pub struct Evaluated<'a> {
    data: Vec<Evaluation>,
    metrics: &'a Metrics<'a>,
}

/// Tells whether `field` is one of `fields`.
fn listed(fields: &Vec<Field>, field: Field) -> (r: bool)
    ensures
        r == fields@.contains(field),
{
    let mut i: usize = 0;
    while i < fields.len()
        invariant
            i <= fields.len(),
            forall|k: int| 0 <= k < i ==> fields@[k] != field,
        decreases fields.len() - i,
    {
        if fields[i] == field {
            return true;
        }
        i += 1;
    }
    false
}

/// Tells whether a metric of company `c` is a NaN.
fn lacks_data(data: &Grid, c: usize) -> (r: bool)
    requires
        data.rows() == 10,
        c < data.cols(),
    ensures
        r == insufficient(*data, c as int),
{
    let mut f: usize = 0;
    while f < 10
        invariant
            f <= 10,
            data.rows() == 10,
            c < data.cols(),
            forall|q: int| 0 <= q < f ==> !nan(#[trigger] data.at(q, c as int)),
        decreases 10 - f,
    {
        if is_nan(grid_get(data, f, c)) {
            assert(nan(data.at(f as int, c as int)));
            return true;
        }
        f += 1;
    }
    false
}

/// Tells whether every metric of company `c` but those of `ignore` lies
/// inside its bounds.
fn within_bounds(data: &Grid, bounds: &Bounds, ignore: &Vec<Field>, c: usize) -> (r: bool)
    requires
        data.rows() == 10,
        c < data.cols(),
    ensures
        r == passes(*data, *bounds, ignore@, c as int),
{
    let mut f: usize = 0;
    while f < 10
        invariant
            f <= 10,
            data.rows() == 10,
            c < data.cols(),
            forall|field: Field|
                field.position() < f && !ignore@.contains(field) ==> #[trigger] admits(
                    *bounds,
                    field,
                    data.at(field.position() as int, c as int),
                ),
        decreases 10 - f,
    {
        match Field::from_index(f) {
            None => {},
            Some(field) => {
                if !listed(ignore, field) {
                    let value = grid_get(data, f, c);
                    let (min, max) = bounds.get(field);
                    if !(lt(min, value) && lt(value, max)) {
                        assert(!admits(*bounds, field, data.at(field.position() as int, c as int)));
                        return false;
                    }
                }
                assert forall|other: Field|
                    other.position() < f + 1 && !ignore@.contains(other) implies #[trigger] admits(
                    *bounds,
                    other,
                    data.at(other.position() as int, c as int),
                ) by {
                    Field::lemma_position(other, field);
                }
            },
        }
        f += 1;
    }
    assert forall|field: Field| !ignore@.contains(field) implies #[trigger] admits(
        *bounds,
        field,
        data.at(field.position() as int, c as int),
    ) by {
        Field::lemma_position(field, field);
    }
    true
}

impl<'a> Evaluator<'a> {
    /// The metrics that the filter looks at.
    pub closed spec fn metrics_of(&self) -> Metrics<'a> {
        *self.metrics
    }

    /// A filter over `metrics`.
    pub fn new(metrics: &'a Metrics<'a>) -> (r: Self)
        ensures
            r.metrics_of() == *metrics,
    {
        Self { metrics }
    }

    /// Judges every company. The result is insufficient data where a metric
    /// is a NaN; else investable where every metric that `ignore` does not
    /// list lies above its lower and under its upper bound; else not
    /// investable.
    pub fn evaluate(&self, bounds: Bounds, ignore: &Vec<Field>) -> (r: Evaluated<'a>)
        ensures
            r.wf(),
            r.metrics_of() == self.metrics_of(),
            r.agrees(bounds, ignore@),
    {
        let data = self.metrics.inner();
        let (_, companies_count) = data.dim();
        let mut evaluated: Vec<Evaluation> = Vec::new();
        let mut c: usize = 0;
        while c < companies_count
            invariant
                c <= companies_count,
                data.rows() == 10,
                data.cols() == companies_count,
                evaluated@.len() == c,
                forall|q: int|
                    0 <= q < c ==> #[trigger] evaluated@[q] == verdict(*data, bounds, ignore@, q),
            decreases companies_count - c,
        {
            let decision = if lacks_data(data, c) {
                Evaluation::InsufficientData
            } else if within_bounds(data, &bounds, ignore, c) {
                Evaluation::Investable
            } else {
                Evaluation::NotInvestable
            };
            evaluated.push(decision);
            c += 1;
        }
        Evaluated { data: evaluated, metrics: self.metrics }
    }
}

impl<'a> Evaluated<'a> {
    /// The verdicts by company identifier.
    pub closed spec fn verdicts(&self) -> Seq<Evaluation> {
        self.data@
    }

    /// The metrics that were looked at.
    pub closed spec fn metrics_of(&self) -> Metrics<'a> {
        *self.metrics
    }

    /// There is one verdict for each company.
    #[verifier::type_invariant]
    pub open spec fn wf(&self) -> bool {
        &&& self.metrics_of().wf()
        &&& self.verdicts().len() == self.metrics_of().financials_of().n_companies()
    }

    /// Whether the verdicts are those that `bounds` and `ignore` give.
    pub open spec fn agrees(&self, bounds: Bounds, ignore: Seq<Field>) -> bool {
        forall|c: int|
            0 <= c < self.verdicts().len() ==> #[trigger] self.verdicts()[c] == verdict(
                self.metrics_of().data_of(),
                bounds,
                ignore,
                c,
            )
    }

    /// The verdict of company `c`; none where there is no such company.
    pub fn get(&self, c: CompanyId) -> (r: Option<Evaluation>)
        ensures
            r == if c < self.verdicts().len() {
                Some(self.verdicts()[c as int])
            } else {
                None
            },
    {
        if c < self.data.len() {
            Some(self.data[c])
        } else {
            None
        }
    }
}

/// Verdicts that the same bounds and the same ignored fields give for the
/// same metrics are the same, company by company: the filter has no memory
/// and does not depend on anything else.
pub proof fn lemma_evaluate_deterministic(
    first: Evaluated,
    second: Evaluated,
    bounds: Bounds,
    ignore: Seq<Field>,
)
    requires
        first.wf(),
        second.wf(),
        first.metrics_of() == second.metrics_of(),
        first.agrees(bounds, ignore),
        second.agrees(bounds, ignore),
    ensures
        first.verdicts() == second.verdicts(),
{
    assert(first.verdicts() =~= second.verdicts());
}

/// A company with a NaN among its metrics has insufficient data, whatever
/// the bounds and the ignored fields are.
pub proof fn lemma_nan_is_insufficient(
    evaluated: Evaluated,
    bounds: Bounds,
    ignore: Seq<Field>,
    c: int,
    field: Field,
)
    requires
        evaluated.wf(),
        evaluated.agrees(bounds, ignore),
        0 <= c < evaluated.verdicts().len(),
        nan(evaluated.metrics_of().data_of().at(field.position() as int, c)),
    ensures
        evaluated.verdicts()[c] == Evaluation::InsufficientData,
{
    Field::lemma_position(field, field);
}

/// The identifiers below `upto` of the companies whose verdict is not that
/// of insufficient data, in ascending order.
pub open spec fn sufficient_ids(verdicts: Seq<Evaluation>, upto: nat) -> Seq<CompanyId>
    decreases upto,
{
    if upto == 0 {
        Seq::empty()
    } else {
        let before = sufficient_ids(verdicts, (upto - 1) as nat);
        if verdicts[upto - 1] != Evaluation::InsufficientData {
            before.push((upto - 1) as usize)
        } else {
            before
        }
    }
}

/// The identifiers below `upto` of the companies whose verdict is
/// investable, in ascending order.
pub open spec fn investable_ids(verdicts: Seq<Evaluation>, upto: nat) -> Seq<CompanyId>
    decreases upto,
{
    if upto == 0 {
        Seq::empty()
    } else {
        let before = investable_ids(verdicts, (upto - 1) as nat);
        if verdicts[upto - 1] == Evaluation::Investable {
            before.push((upto - 1) as usize)
        } else {
            before
        }
    }
}

/// The investable identifiers are exactly the identifiers of the
/// investable companies, each once and in ascending order.
pub proof fn lemma_investable_ids(verdicts: Seq<Evaluation>, upto: nat)
    requires
        upto <= verdicts.len(),
        verdicts.len() <= usize::MAX,
    ensures
        forall|i: int|
            0 <= i < investable_ids(verdicts, upto).len() ==> (#[trigger] investable_ids(
                verdicts,
                upto,
            )[i]) < upto && verdicts[investable_ids(verdicts, upto)[i] as int]
                == Evaluation::Investable,
        forall|i: int, j: int|
            0 <= i < j < investable_ids(verdicts, upto).len() ==> investable_ids(verdicts, upto)[i]
                < investable_ids(verdicts, upto)[j],
        forall|c: int|
            0 <= c < upto && verdicts[c] == Evaluation::Investable ==> investable_ids(
                verdicts,
                upto,
            ).contains(c as usize),
    decreases upto,
{
    if upto > 0 {
        let before = investable_ids(verdicts, (upto - 1) as nat);
        let all = investable_ids(verdicts, upto);
        lemma_investable_ids(verdicts, (upto - 1) as nat);
        assert forall|c: int|
            0 <= c < upto && verdicts[c] == Evaluation::Investable implies all.contains(
            c as usize,
        ) by {
            if c < upto - 1 {
                let i = choose|i: int| 0 <= i < before.len() && before[i] == c as usize;
                assert(all[i] == c as usize);
            } else {
                assert(all[all.len() - 1] == c as usize);
            }
        }
    }
}

/// How a position ended.
#[derive(Debug, Eq, PartialEq, Clone, Copy, Structural)]
pub enum BacktrackResult {
    /// The price reached the buy price plus the return asked for.
    ReachedReturnPercent,
    /// The price never reached that, and was above the buy price on the
    /// last day.
    GainAtEnd,
    /// The price never reached that, and was not above the buy price on the
    /// last day.
    LossAtEnd,
}

/// The first day from `from` on whose price is `target` or more, if there
/// is one.
pub open spec fn first_reach(prices: Seq<u32>, from: int, target: u32) -> Option<int>
    decreases prices.len() - from,
{
    if from < 0 || from >= prices.len() {
        None
    } else if at_most(target, prices[from]) {
        Some(from)
    } else {
        first_reach(prices, from + 1, target)
    }
}

/// What became of a position bought at `buy_price`, given the prices of
/// the days from the buy date to the sell date: the price of the first day
/// that reached `target`, if a day did; else the price of the last day,
/// as a gain if it is above the buy price and as a loss if not.
pub open spec fn outcome(prices: Seq<u32>, buy_price: u32, target: u32) -> (u32, BacktrackResult) {
    match first_reach(prices, 0, target) {
        Some(day) => (prices[day], BacktrackResult::ReachedReturnPercent),
        None => {
            let last_price = prices[prices.len() - 1];
            if less(buy_price, last_price) {
                (last_price, BacktrackResult::GainAtEnd)
            } else {
                (last_price, BacktrackResult::LossAtEnd)
            }
        },
    }
}

/// The first reach is a day whose price is the target or more, and no day
/// before it is one; where there is none, no day's price is.
pub proof fn lemma_first_reach(prices: Seq<u32>, from: int, target: u32)
    requires
        0 <= from,
    ensures
        match first_reach(prices, from, target) {
            Some(day) => from <= day < prices.len() && at_most(target, prices[day]) && forall|
                d: int,
            |
                from <= d < day ==> !at_most(target, #[trigger] prices[d]),
            None => forall|d: int|
                from <= d < prices.len() ==> !at_most(target, #[trigger] prices[d]),
        },
    decreases prices.len() - from,
{
    if from < prices.len() && !at_most(target, prices[from]) {
        lemma_first_reach(prices, from + 1, target);
    }
}

/// Classifies a position from the prices of its days, the first day
/// first.
pub fn classify(prices: &Vec<u32>, buy_price: u32, target: u32) -> (r: (u32, BacktrackResult))
    requires
        prices@.len() > 0,
    ensures
        r == outcome(prices@, buy_price, target),
        r.1 == BacktrackResult::ReachedReturnPercent <==> exists|d: int|
            0 <= d < prices@.len() && at_most(target, #[trigger] prices@[d]),
        r.1 == BacktrackResult::ReachedReturnPercent ==> exists|day: int|
            0 <= day < prices@.len() && r.0 == #[trigger] prices@[day] && at_most(target, r.0)
                && forall|d: int| 0 <= d < day ==> !at_most(target, #[trigger] prices@[d]),
        r.1 != BacktrackResult::ReachedReturnPercent ==> r.0 == prices@[prices@.len() - 1] && (r.1
            == BacktrackResult::GainAtEnd <==> less(buy_price, r.0)),
{
    proof {
        lemma_first_reach(prices@, 0, target);
    }
    let mut day: usize = 0;
    while day < prices.len()
        invariant
            day <= prices.len(),
            first_reach(prices@, 0, target) == first_reach(prices@, day as int, target),
        decreases prices.len() - day,
    {
        let price = prices[day];
        if le(target, price) {
            proof {
                lemma_first_reach(prices@, 0, target);
                assert(first_reach(prices@, 0, target) == Some(day as int));
                assert(prices@[day as int] == price);
            }
            return (price, BacktrackResult::ReachedReturnPercent);
        }
        day += 1;
    }
    let last_price = prices[prices.len() - 1];
    if lt(buy_price, last_price) {
        (last_price, BacktrackResult::GainAtEnd)
    } else {
        (last_price, BacktrackResult::LossAtEnd)
    }
}

/// The high share prices of company `c` from the day at offset `start` to
/// the day at offset `end`, both included.
pub open spec fn window(store: Financials, start: int, end: int, c: int) -> Seq<u32> {
    Seq::new((end - start + 1) as nat, |d: int| high_price(store, start + d, c))
}

/// Whether `entry` is what became of the position in company `c`: bought
/// at `buy_price` on the day at offset `start`, watched to the day at
/// offset `end`, with the target at the buy price times one plus
/// `return_percent`.
pub open spec fn traces<A: Fn(Operation, u32, u32) -> u32>(
    arith: &A,
    store: Financials,
    start: int,
    end: int,
    buy_price: u32,
    return_percent: u32,
    c: int,
    entry: (u32, BacktrackResult),
) -> bool {
    exists|factor: u32, target: u32|
        computes(arith, Operation::Add, ONE, return_percent, factor) && computes(
            arith,
            Operation::Multiply,
            buy_price,
            factor,
            target,
        ) && entry == outcome(window(store, start, end, c), buy_price, target)
}

/// What became of the positions in the investable companies.
#[derive(Debug)]
pub struct Backtracked {
    data: Vec<(CompanyId, (u32, BacktrackResult))>,
}

/// How many positions ended in each way.
#[derive(Debug, Clone, Copy, PartialEq, Eq, Structural)]
pub struct BacktrackStatistics {
    pub n_reached_percent: usize,
    pub n_gain_at_end: usize,
    pub n_loss_at_end: usize,
}

impl Default for BacktrackStatistics {
    fn default() -> (r: Self)
        ensures
            r.n_reached_percent == 0 && r.n_gain_at_end == 0 && r.n_loss_at_end == 0,
    {
        BacktrackStatistics { n_reached_percent: 0, n_gain_at_end: 0, n_loss_at_end: 0 }
    }
}

/// How many of the first `upto` entries ended as `condition` says.
pub open spec fn count_which(
    entries: Seq<(CompanyId, (u32, BacktrackResult))>,
    condition: BacktrackResult,
    upto: nat,
) -> nat
    decreases upto,
{
    if upto == 0 {
        0
    } else {
        count_which(entries, condition, (upto - 1) as nat) + if entries[upto - 1].1.1
            == condition {
            1nat
        } else {
            0nat
        }
    }
}

/// Of the first `upto` entries those that ended as `condition` says, each
/// with its company and its price, in the order of the entries.
pub open spec fn picked_which(
    entries: Seq<(CompanyId, (u32, BacktrackResult))>,
    condition: BacktrackResult,
    upto: nat,
) -> Seq<(CompanyId, u32)>
    decreases upto,
{
    if upto == 0 {
        Seq::empty()
    } else {
        let before = picked_which(entries, condition, (upto - 1) as nat);
        if entries[upto - 1].1.1 == condition {
            before.push((entries[upto - 1].0, entries[upto - 1].1.0))
        } else {
            before
        }
    }
}

/// Reads the high share prices of company `c` from the day at offset
/// `start` to the day at offset `end`.
fn price_window(store: &Financials, start: usize, end: usize, c: usize) -> (prices: Vec<u32>)
    requires
        store.wf(),
        start <= end < store.options_of().n_days(),
        c < store.n_companies(),
    ensures
        prices@ == window(*store, start as int, end as int, c as int),
        prices@.len() > 0,
{
    let daily = store.daily();
    let (n_days, _, _) = cube_dim(daily);
    let mut prices: Vec<u32> = Vec::new();
    let mut day: usize = start;
    while day <= end
        invariant
            start <= day <= end + 1,
            end < n_days,
            store.wf(),
            *daily == store.daily_of(),
            n_days == store.options_of().n_days(),
            c < store.n_companies(),
            prices@.len() == day - start,
            forall|d: int|
                0 <= d < prices@.len() ==> #[trigger] prices@[d] == high_price(
                    *store,
                    start + d,
                    c as int,
                ),
        decreases end + 1 - day,
    {
        prices.push(cube_get(daily, day, DailyField::HighSharePrice.index(), c));
        day += 1;
    }
    assert(prices@ =~= window(*store, start as int, end as int, c as int));
    prices
}

/// Follows the position in company `c` from the day at offset `start` to
/// the day at offset `end`.
fn trace_position<A: Fn(Operation, u32, u32) -> u32>(
    arith: &A,
    store: &Financials,
    start: usize,
    end: usize,
    buy_price: u32,
    return_percent: u32,
    c: usize,
) -> (entry: (u32, BacktrackResult))
    requires
        total(arith),
        store.wf(),
        start <= end < store.options_of().n_days(),
        c < store.n_companies(),
    ensures
        traces(arith, *store, start as int, end as int, buy_price, return_percent, c as int, entry),
{
    let factor = apply(arith, Operation::Add, ONE, return_percent);
    let target = apply(arith, Operation::Multiply, buy_price, factor);
    let prices = price_window(store, start, end, c);
    let entry = classify(&prices, buy_price, target);
    assert(computes(arith, Operation::Add, ONE, return_percent, factor) && computes(
        arith,
        Operation::Multiply,
        buy_price,
        factor,
        target,
    ) && entry == outcome(window(*store, start as int, end as int, c as int), buy_price, target));
    entry
}

impl<'a> Evaluated<'a> {
    /// The companies whose data sufficed, by ascending identifier.
    pub fn companies_sufficient(&self) -> (r: Vec<CompanyId>)
        ensures
            r@ == sufficient_ids(self.verdicts(), self.verdicts().len()),
    {
        let mut out: Vec<CompanyId> = Vec::new();
        let mut c: usize = 0;
        while c < self.data.len()
            invariant
                c <= self.data.len(),
                out@ == sufficient_ids(self.verdicts(), c as nat),
            decreases self.data.len() - c,
        {
            if self.data[c] != Evaluation::InsufficientData {
                out.push(c);
            }
            c += 1;
        }
        out
    }

    /// The investable companies, by ascending identifier.
    pub fn companies_investable(&self) -> (r: Vec<CompanyId>)
        ensures
            r@ == investable_ids(self.verdicts(), self.verdicts().len()),
    {
        let mut out: Vec<CompanyId> = Vec::new();
        let mut c: usize = 0;
        while c < self.data.len()
            invariant
                c <= self.data.len(),
                out@ == investable_ids(self.verdicts(), c as nat),
            decreases self.data.len() - c,
        {
            if self.data[c] == Evaluation::Investable {
                out.push(c);
            }
            c += 1;
        }
        out
    }

    /// Whether `r` holds what became of each investable company, in the
    /// order of their identifiers.
    pub open spec fn backtracks<A: Fn(Operation, u32, u32) -> u32>(
        &self,
        arith: &A,
        r: Backtracked,
    ) -> bool {
        let metrics = self.metrics_of();
        let store = metrics.financials_of();
        let options = metrics.options_of();
        let ids = investable_ids(self.verdicts(), self.verdicts().len());
        &&& r@.len() == ids.len()
        &&& store.date_index(options.buy_date) matches Some(start)
        &&& store.date_index(options.sell_date) matches Some(end)
        &&& forall|i: int|
            0 <= i < ids.len() ==> (#[trigger] r@[i]).0 == ids[i] && traces(
                arith,
                store,
                start,
                end,
                metrics.company(ids[i] as int).buy_share_price,
                options.return_percent,
                ids[i] as int,
                r@[i].1,
            )
    }

    /// Looks at what became of a position in each investable company: the
    /// high share prices from the buy date to the sell date are gone
    /// through in the order of the days, against the target of the buy
    /// share price times one plus the return asked for. The store has to
    /// cover the sell date.
    pub fn backtrack<A: Fn(Operation, u32, u32) -> u32>(&self, arith: &A) -> (r: Backtracked)
        requires
            total(arith),
            self.metrics_of().financials_of().date_index(self.metrics_of().options_of().sell_date)
                is Some,
        ensures
            self.backtracks(arith, r),
    {
        proof {
            use_type_invariant(self);
            use_type_invariant(self.metrics);
        }
        let metrics = self.metrics;
        let financials = metrics.financials;
        let options = metrics.options;
        let ids = self.companies_investable();
        let count = self.data.len();
        proof {
            lemma_investable_ids(self.verdicts(), count as nat);
        }
        let mut data: Vec<(CompanyId, (u32, BacktrackResult))> = Vec::new();
        let date_start = match financials.date_to_index(options.buy_date) {
            Ok(i) => i,
            Err(_) => {
                return Backtracked { data };
            },
        };
        let date_end = match financials.date_to_index(options.sell_date) {
            Ok(i) => i,
            Err(_) => {
                return Backtracked { data };
            },
        };
        let mut i: usize = 0;
        while i < ids.len()
            invariant
                i <= ids.len(),
                total(arith),
                metrics.wf(),
                financials.wf(),
                *metrics == self.metrics_of(),
                *financials == metrics.financials_of(),
                options == metrics.options_of(),
                metrics.data_of() == metrics.data,
                date_start <= date_end < financials.options_of().n_days(),
                forall|q: int|
                    0 <= q < ids@.len() ==> (#[trigger] ids@[q]) < financials.n_companies(),
                data@.len() == i,
                forall|q: int|
                    0 <= q < i ==> (#[trigger] data@[q]).0 == ids@[q] && traces(
                        arith,
                        *financials,
                        date_start as int,
                        date_end as int,
                        metrics.company(ids@[q] as int).buy_share_price,
                        options.return_percent,
                        ids@[q] as int,
                        data@[q].1,
                    ),
            decreases ids.len() - i,
        {
            let company_index = ids[i];
            let buy_price = grid_get(&metrics.data, Field::BuySharePrice.index(), company_index);
            let result_tup = trace_position(
                arith,
                financials,
                date_start,
                date_end,
                buy_price,
                options.return_percent,
                company_index,
            );
            data.push((company_index, result_tup));
            i += 1;
        }
        Backtracked { data }
    }
}

impl View for Backtracked {
    type V = Seq<(CompanyId, (u32, BacktrackResult))>;

    /// The entries: a company, the price that decided, and how the
    /// position ended.
    closed spec fn view(&self) -> Seq<(CompanyId, (u32, BacktrackResult))> {
        self.data@
    }
}

impl Backtracked {
    /// Counts how many positions ended in each of the three ways.
    pub fn stats(&self) -> (r: BacktrackStatistics)
        ensures
            r.n_reached_percent == count_which(
                self@,
                BacktrackResult::ReachedReturnPercent,
                self@.len(),
            ),
            r.n_gain_at_end == count_which(self@, BacktrackResult::GainAtEnd, self@.len()),
            r.n_loss_at_end == count_which(self@, BacktrackResult::LossAtEnd, self@.len()),
            r.n_reached_percent + r.n_gain_at_end + r.n_loss_at_end == self@.len(),
    {
        let mut acc = BacktrackStatistics { n_reached_percent: 0, n_gain_at_end: 0, n_loss_at_end: 0 };
        let mut i: usize = 0;
        while i < self.data.len()
            invariant
                i <= self.data.len(),
                acc.n_reached_percent == count_which(
                    self@,
                    BacktrackResult::ReachedReturnPercent,
                    i as nat,
                ),
                acc.n_gain_at_end == count_which(self@, BacktrackResult::GainAtEnd, i as nat),
                acc.n_loss_at_end == count_which(self@, BacktrackResult::LossAtEnd, i as nat),
                acc.n_reached_percent + acc.n_gain_at_end + acc.n_loss_at_end == i,
            decreases self.data.len() - i,
        {
            let res = self.data[i].1.1;
            acc = match res {
                BacktrackResult::ReachedReturnPercent => BacktrackStatistics {
                    n_reached_percent: acc.n_reached_percent + 1,
                    ..acc
                },
                BacktrackResult::GainAtEnd => BacktrackStatistics {
                    n_gain_at_end: acc.n_gain_at_end + 1,
                    ..acc
                },
                BacktrackResult::LossAtEnd => BacktrackStatistics {
                    n_loss_at_end: acc.n_loss_at_end + 1,
                    ..acc
                },
            };
            i += 1;
        }
        acc
    }

    /// The companies whose position ended as `condition` says, each with
    /// the price that decided, in the order of the entries.
    pub fn companies_which(&self, condition: BacktrackResult) -> (r: Vec<(CompanyId, u32)>)
        ensures
            r@ == picked_which(self@, condition, self@.len()),
    {
        let mut out: Vec<(CompanyId, u32)> = Vec::new();
        let mut i: usize = 0;
        while i < self.data.len()
            invariant
                i <= self.data.len(),
                out@ == picked_which(self@, condition, i as nat),
            decreases self.data.len() - i,
        {
            let (company_idx, (price, result)) = self.data[i];
            if result == condition {
                out.push((company_idx, price));
            }
            i += 1;
        }
        out
    }
}

} // verus!
