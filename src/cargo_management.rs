use vstd::prelude::*;

use crate::api::Waypoint;
use crate::contracts::{all_requirements, get_contract_requirements, Contract};
use crate::ships::CargoItem;

verus! {

/// An outstanding delivery that an accepted, unfulfilled contract still asks for.
#[derive(Debug, Clone, PartialEq, Eq)]
pub struct ContractRequirement {
    pub trade_symbol: String,
    /// Units still to deliver.
    pub required_units: i64,
    /// Units already delivered.
    pub fulfilled_units: i32,
    pub destination: String,
}

/// What one market pays for one good, and how far away it is.
#[derive(Debug, Clone, PartialEq, Eq)]
pub struct MarketPriceInfo {
    pub waypoint: String,
    pub sell_price: i32,
    pub trade_volume: i32,
    /// Straight-line distance from the reference point, times 100, rounded down.
    pub distance_hundredths: u64,
}

/// The quotes gathered for one good.
#[derive(Debug, Clone, PartialEq, Eq)]
pub struct ItemPrices {
    pub symbol: String,
    pub quotes: Vec<MarketPriceInfo>,
}

/// Quotes per good and outstanding requirements, gathered in one analysis pass.
#[derive(Debug, Clone, PartialEq, Eq)]
pub struct MarketAnalysis {
    pub prices: Vec<ItemPrices>,
    pub requirements: Vec<ContractRequirement>,
    /// The market locations left out because a fetch for them failed.
    pub failed_markets: Vec<String>,
}

/// One good as a market lists it.
#[derive(Debug, Clone, PartialEq, Eq)]
pub struct TradeGood {
    pub symbol: String,
    pub trade_volume: i32,
    pub purchase_price: i32,
    pub sell_price: i32,
}

/// The goods a market trades.
#[derive(Debug, Clone, PartialEq, Eq)]
pub struct Market {
    pub symbol: String,
    pub trade_goods: Vec<TradeGood>,
}

/// What was fetched about one market location; `None` where a fetch failed.
#[derive(Debug, Clone, PartialEq, Eq)]
pub struct MarketSurvey {
    pub waypoint: String,
    pub details: Option<Waypoint>,
    pub market: Option<Market>,
}

/// `r` is the largest natural number whose square does not exceed `n`.
pub open spec fn is_floor_sqrt(r: int, n: int) -> bool {
    0 <= r && r * r <= n < (r + 1) * (r + 1)
}

/// The largest natural number whose square does not exceed `n`.
pub open spec fn floor_sqrt(n: int) -> int {
    choose|r: int| is_floor_sqrt(r, n)
}

/// Euclidean distance between two grid points, times 100, rounded down.
pub open spec fn distance_hundredths(x: int, y: int, cx: int, cy: int) -> int {
    floor_sqrt(10000 * ((x - cx) * (x - cx) + (y - cy) * (y - cy)))
}

/// The value of selling at a market: its price less 100 per unit of distance.
pub open spec fn score(q: MarketPriceInfo) -> int {
    q.sell_price - q.distance_hundredths
}

/// `k` is the first entry of `entries` for the good `sym`.
pub open spec fn first_entry(entries: Seq<ItemPrices>, sym: Seq<char>, k: int) -> bool {
    &&& 0 <= k < entries.len()
    &&& entries[k].symbol@ == sym
    &&& forall|j: int| 0 <= j < k ==> entries[j].symbol@ != sym
}

/// The quotes held for the good `sym`; none where no entry names it.
pub open spec fn quotes_for(entries: Seq<ItemPrices>, sym: Seq<char>) -> Seq<MarketPriceInfo> {
    if exists|k: int| first_entry(entries, sym, k) {
        entries[choose|k: int| first_entry(entries, sym, k)].quotes@
    } else {
        seq![]
    }
}

/// `k` is the first requirement of `reqs` for the good `sym`.
pub open spec fn first_requirement(reqs: Seq<ContractRequirement>, sym: Seq<char>, k: int) -> bool {
    &&& 0 <= k < reqs.len()
    &&& reqs[k].trade_symbol@ == sym
    &&& forall|j: int| 0 <= j < k ==> reqs[j].trade_symbol@ != sym
}

/// `k` holds the first quote of `qs` with the highest score.
pub open spec fn first_best(qs: Seq<MarketPriceInfo>, k: int) -> bool {
    &&& 0 <= k < qs.len()
    &&& forall|j: int| 0 <= j < qs.len() ==> score(#[trigger] qs[j]) <= score(qs[k])
    &&& forall|j: int| 0 <= j < k ==> score(#[trigger] qs[j]) < score(qs[k])
}

/// No two entries name the same good.
pub open spec fn symbols_distinct(entries: Seq<ItemPrices>) -> bool {
    forall|i: int, j: int|
        0 <= i < entries.len() && 0 <= j < entries.len() && i != j ==> entries[i].symbol@
            != entries[j].symbol@
}

/// `sym` is one of the goods asked about.
pub open spec fn is_wanted(items: Seq<String>, sym: Seq<char>) -> bool {
    exists|i: int| 0 <= i < items.len() && items[i]@ == sym
}

/// The quote that a surveyed market location gives for one of its goods.
pub open spec fn quote_of(waypoint: String, w: Waypoint, g: TradeGood, cx: int, cy: int) -> MarketPriceInfo {
    MarketPriceInfo {
        waypoint: waypoint,
        sell_price: g.sell_price,
        trade_volume: g.trade_volume,
        distance_hundredths: distance_hundredths(w.x as int, w.y as int, cx, cy) as u64,
    }
}

/// The quotes for `sym` among the goods `goods` listed at one location.
pub open spec fn listed_quotes(
    waypoint: String,
    w: Waypoint,
    goods: Seq<TradeGood>,
    sym: Seq<char>,
    cx: int,
    cy: int,
) -> Seq<MarketPriceInfo>
    decreases goods.len(),
{
    if goods.len() == 0 {
        seq![]
    } else {
        listed_quotes(waypoint, w, goods.drop_last(), sym, cx, cy) + if goods.last().symbol@ == sym {
            seq![quote_of(waypoint, w, goods.last(), cx, cy)]
        } else {
            seq![]
        }
    }
}

/// The quotes for `sym` at one location; none where a fetch for it failed.
pub open spec fn location_quotes(s: MarketSurvey, sym: Seq<char>, cx: int, cy: int) -> Seq<MarketPriceInfo> {
    match (s.details, s.market) {
        (Some(w), Some(m)) => listed_quotes(s.waypoint, w, m.trade_goods@, sym, cx, cy),
        _ => seq![],
    }
}

/// The quotes for `sym` over all surveyed locations, location by location.
pub open spec fn survey_quotes(ss: Seq<MarketSurvey>, sym: Seq<char>, cx: int, cy: int) -> Seq<MarketPriceInfo>
    decreases ss.len(),
{
    if ss.len() == 0 {
        seq![]
    } else {
        survey_quotes(ss.drop_last(), sym, cx, cy) + location_quotes(ss.last(), sym, cx, cy)
    }
}

/// The locations among `ss` left out of the survey because a fetch failed.
pub open spec fn failed_locations(ss: Seq<MarketSurvey>) -> Seq<String>
    decreases ss.len(),
{
    if ss.len() == 0 {
        seq![]
    } else {
        failed_locations(ss.drop_last()) + if ss.last().details is Some && ss.last().market is Some {
            seq![]
        } else {
            seq![ss.last().waypoint]
        }
    }
}

/// The units of `units` held that stay free once `reserved` of them are held back.
pub open spec fn sellable_spec(units: int, reserved: Option<int>) -> int {
    match reserved {
        Some(r) => if units - r > 0 { units - r } else { 0 },
        None => units,
    }
}

/// How many units of `item` may be sold on the open market: all of them, or,
/// where a requirement asks for that good, what is left over the units it
/// still needs.
pub fn calculate_max_sellable_units(
    item: &CargoItem,
    contract_requirement: Option<&ContractRequirement>,
) -> (r: i32)
    requires
        contract_requirement matches Some(req) ==> req.required_units >= 0,
    ensures
        r == sellable_spec(
            item.units as int,
            match contract_requirement {
                Some(req) => Some(req.required_units as int),
                None => None,
            },
        ),
        contract_requirement is Some ==> 0 <= r,
{
    match contract_requirement {
        Some(req) => {
            let left: i128 = item.units as i128 - req.required_units as i128;
            if left > 0 {
                left as i32
            } else {
                0
            }
        },
        None => item.units,
    }
}


proof fn lemma_floor_sqrt_is(r: int, n: int)
    requires
        0 <= r,
        r * r <= n < (r + 1) * (r + 1),
    ensures
        floor_sqrt(n) == r,
{
    assert(is_floor_sqrt(r, n));
    let c = floor_sqrt(n);
    assert(0 <= c && c * c <= n < (c + 1) * (c + 1));
    if c < r {
        assert((c + 1) * (c + 1) <= r * r) by (nonlinear_arith)
            requires
                0 <= c,
                c + 1 <= r,
        ;
    } else if r < c {
        assert((r + 1) * (r + 1) <= c * c) by (nonlinear_arith)
            requires
                0 <= r,
                r + 1 <= c,
        ;
    }
}

const SQRT_BOUND: u128 = 0x100_0000_0000;

/// The integer square root of `n`, rounded down.
fn floor_sqrt_u128(n: u128) -> (r: u64)
    requires
        n < SQRT_BOUND * SQRT_BOUND,
    ensures
        r as int == floor_sqrt(n as int),
{
    let mut lo: u128 = 0;
    let mut hi: u128 = SQRT_BOUND;
    while hi - lo > 1
        invariant
            lo < hi <= SQRT_BOUND,
            lo * lo <= n < hi * hi,
        decreases hi - lo,
    {
        let mid: u128 = lo + (hi - lo) / 2;
        assert(mid * mid <= SQRT_BOUND * SQRT_BOUND) by (nonlinear_arith)
            requires
                mid <= SQRT_BOUND,
        ;
        if mid * mid <= n {
            lo = mid;
        } else {
            hi = mid;
        }
    }
    proof {
        lemma_floor_sqrt_is(lo as int, n as int);
    }
    lo as u64
}

/// Euclidean distance from `(cx, cy)` to `(x, y)`, times 100, rounded down.
pub fn grid_distance_hundredths(x: i32, y: i32, cx: i32, cy: i32) -> (r: u64)
    ensures
        r as int == distance_hundredths(x as int, y as int, cx as int, cy as int),
{
    let dx: i128 = x as i128 - cx as i128;
    let dy: i128 = y as i128 - cy as i128;
    assert(0 <= dx * dx <= 0x1_0000_0000 * 0x1_0000_0000) by (nonlinear_arith)
        requires
            -0x1_0000_0000 <= dx <= 0x1_0000_0000,
    ;
    assert(0 <= dy * dy <= 0x1_0000_0000 * 0x1_0000_0000) by (nonlinear_arith)
        requires
            -0x1_0000_0000 <= dy <= 0x1_0000_0000,
    ;
    let squared: u128 = (10000 * (dx * dx + dy * dy)) as u128;
    floor_sqrt_u128(squared)
}

proof fn lemma_quotes_for_entry(entries: Seq<ItemPrices>, sym: Seq<char>, k: int)
    requires
        first_entry(entries, sym, k),
    ensures
        quotes_for(entries, sym) == entries[k].quotes@,
{
    let c = choose|c: int| first_entry(entries, sym, c);
    assert(first_entry(entries, sym, c));
    if c < k {
        assert(entries[c].symbol@ != sym);
    } else if k < c {
        assert(entries[k].symbol@ != sym);
    }
}

/// The first entry of `entries` for the good `sym`, if any.
fn find_entry(entries: &Vec<ItemPrices>, sym: &String) -> (r: Option<usize>)
    ensures
        match r {
            Some(k) => first_entry(entries@, sym@, k as int),
            None => forall|j: int| 0 <= j < entries@.len() ==> entries@[j].symbol@ != sym@,
        },
{
    let mut k: usize = 0;
    while k < entries.len()
        invariant
            k <= entries.len(),
            forall|j: int| 0 <= j < k ==> entries@[j].symbol@ != sym@,
        decreases entries.len() - k,
    {
        if entries[k].symbol == *sym {
            return Some(k);
        }
        k += 1;
    }
    None
}

/// `quotes_for` as seen through `find_entry`'s answer.
proof fn lemma_quotes_for_found(entries: Seq<ItemPrices>, sym: Seq<char>, r: Option<usize>)
    requires
        match r {
            Some(k) => first_entry(entries, sym, k as int),
            None => forall|j: int| 0 <= j < entries.len() ==> entries[j].symbol@ != sym,
        },
    ensures
        quotes_for(entries, sym) == match r {
            Some(k) => entries[k as int].quotes@,
            None => Seq::<MarketPriceInfo>::empty(),
        },
{
    match r {
        Some(k) => lemma_quotes_for_entry(entries, sym, k as int),
        None => {
            assert(!exists|k: int| first_entry(entries, sym, k));
        },
    }
}

fn quote_score(q: &MarketPriceInfo) -> (r: i128)
    ensures
        r == score(*q),
{
    q.sell_price as i128 - q.distance_hundredths as i128
}

impl MarketAnalysis {
    /// The quotes this analysis holds for the good `sym`.
    pub open spec fn quotes(&self, sym: Seq<char>) -> Seq<MarketPriceInfo> {
        quotes_for(self.prices@, sym)
    }

    /// The market where selling `item_symbol` scores best, price less 100 per
    /// unit of distance; the first such market where several tie, and none
    /// where no market quotes the good.
    pub fn get_best_market_for_item(&self, item_symbol: &str) -> (r: Option<&MarketPriceInfo>)
        ensures
            match r {
                None => self.quotes(item_symbol@).len() == 0,
                Some(q) => exists|k: int|
                    first_best(self.quotes(item_symbol@), k) && *q == #[trigger] self.quotes(
                        item_symbol@,
                    )[k],
            },
    {
        let key = item_symbol.to_owned();
        assert(key@ == item_symbol@);
        let found = find_entry(&self.prices, &key);
        proof {
            lemma_quotes_for_found(self.prices@, item_symbol@, found);
        }
        match found {
            None => None,
            Some(k) => {
                let quotes = &self.prices[k].quotes;
                if quotes.len() == 0 {
                    return None;
                }
                let mut best: usize = 0;
                let mut best_score: i128 = quote_score(&quotes[0]);
                let mut i: usize = 1;
                while i < quotes.len()
                    invariant
                        best < i <= quotes@.len(),
                        quotes@ == self.quotes(item_symbol@),
                        best_score == score(quotes@[best as int]),
                        forall|j: int| 0 <= j < i ==> score(#[trigger] quotes@[j]) <= best_score,
                        forall|j: int| 0 <= j < best ==> score(#[trigger] quotes@[j]) < best_score,
                    decreases quotes.len() - i,
                {
                    let s = quote_score(&quotes[i]);
                    if s > best_score {
                        best = i;
                        best_score = s;
                    }
                    i += 1;
                }
                assert(first_best(quotes@, best as int));
                Some(&quotes[best])
            },
        }
    }

    /// The first requirement for the good `item_symbol`, if any. Where several
    /// contracts ask for the same good only the first is given.
    pub fn get_contract_requirement(&self, item_symbol: &str) -> (r: Option<&ContractRequirement>)
        ensures
            match r {
                None => forall|j: int|
                    0 <= j < self.requirements@.len() ==> self.requirements@[j].trade_symbol@
                        != item_symbol@,
                Some(req) => exists|k: int|
                    first_requirement(self.requirements@, item_symbol@, k) && *req
                        == #[trigger] self.requirements@[k],
            },
    {
        let key = item_symbol.to_owned();
        assert(key@ == item_symbol@);
        let mut k: usize = 0;
        while k < self.requirements.len()
            invariant
                k <= self.requirements@.len(),
                key@ == item_symbol@,
                forall|j: int| 0 <= j < k ==> self.requirements@[j].trade_symbol@ != key@,
            decreases self.requirements.len() - k,
        {
            if self.requirements[k].trade_symbol == key {
                assert(first_requirement(self.requirements@, item_symbol@, k as int));
                return Some(&self.requirements[k]);
            }
            k += 1;
        }
        None
    }
}

/// Appends to `out` the quotes for `sym` among the goods listed at one location.
fn push_listed_quotes(
    waypoint: &String,
    w: &Waypoint,
    goods: &Vec<TradeGood>,
    sym: &String,
    cx: i32,
    cy: i32,
    out: &mut Vec<MarketPriceInfo>,
)
    ensures
        final(out)@ == old(out)@ + listed_quotes(*waypoint, *w, goods@, sym@, cx as int, cy as int),
{
    let ghost start = out@;
    let distance = grid_distance_hundredths(w.x, w.y, cx, cy);
    let mut j: usize = 0;
    while j < goods.len()
        invariant
            j <= goods@.len(),
            distance as int == distance_hundredths(w.x as int, w.y as int, cx as int, cy as int),
            out@ == start + listed_quotes(
                *waypoint,
                *w,
                goods@.subrange(0, j as int),
                sym@,
                cx as int,
                cy as int,
            ),
        decreases goods.len() - j,
    {
        let g = &goods[j];
        assert(goods@.subrange(0, j + 1).drop_last() == goods@.subrange(0, j as int));
        if g.symbol == *sym {
            out.push(
                MarketPriceInfo {
                    waypoint: waypoint.clone(),
                    sell_price: g.sell_price,
                    trade_volume: g.trade_volume,
                    distance_hundredths: distance,
                },
            );
        }
        j += 1;
    }
    assert(goods@.subrange(0, goods.len() as int) == goods@);
}

/// The quotes for `sym` over all surveyed locations, skipping any location
/// whose coordinates or goods could not be fetched.
pub fn collect_quotes(surveys: &Vec<MarketSurvey>, sym: &String, cx: i32, cy: i32) -> (r: Vec<
    MarketPriceInfo,
>)
    ensures
        r@ == survey_quotes(surveys@, sym@, cx as int, cy as int),
{
    let mut quotes: Vec<MarketPriceInfo> = Vec::new();
    let mut i: usize = 0;
    while i < surveys.len()
        invariant
            i <= surveys@.len(),
            quotes@ == survey_quotes(surveys@.subrange(0, i as int), sym@, cx as int, cy as int),
        decreases surveys.len() - i,
    {
        let survey = &surveys[i];
        assert(surveys@.subrange(0, i + 1).drop_last() == surveys@.subrange(0, i as int));
        match (&survey.details, &survey.market) {
            (Some(w), Some(m)) => {
                push_listed_quotes(&survey.waypoint, w, &m.trade_goods, sym, cx, cy, &mut quotes);
            },
            _ => {},
        }
        i += 1;
    }
    assert(surveys@.subrange(0, surveys.len() as int) == surveys@);
    quotes
}

proof fn lemma_quotes_for_push(entries: Seq<ItemPrices>, e: ItemPrices, sym: Seq<char>)
    requires
        forall|j: int| 0 <= j < entries.len() ==> entries[j].symbol@ != e.symbol@,
    ensures
        quotes_for(entries.push(e), sym) == if sym == e.symbol@ {
            e.quotes@
        } else {
            quotes_for(entries, sym)
        },
{
    let pushed = entries.push(e);
    if sym == e.symbol@ {
        assert(first_entry(pushed, sym, entries.len() as int));
        lemma_quotes_for_entry(pushed, sym, entries.len() as int);
    } else if exists|k: int| first_entry(entries, sym, k) {
        let k = choose|k: int| first_entry(entries, sym, k);
        lemma_quotes_for_entry(entries, sym, k);
        assert(first_entry(pushed, sym, k));
        lemma_quotes_for_entry(pushed, sym, k);
    } else {
        if exists|k: int| first_entry(pushed, sym, k) {
            let k = choose|k: int| first_entry(pushed, sym, k);
            assert(pushed[entries.len() as int] == e);
            assert(forall|j: int| 0 <= j < entries.len() ==> pushed[j] == entries[j]);
            assert(first_entry(entries, sym, k));
        }
    }
}

proof fn lemma_is_wanted_step(items: Seq<String>, i: int, sym: Seq<char>)
    requires
        0 <= i < items.len(),
    ensures
        is_wanted(items.subrange(0, i + 1), sym) == (is_wanted(items.subrange(0, i), sym)
            || items[i]@ == sym),
{
    let longer = items.subrange(0, i + 1);
    let shorter = items.subrange(0, i);
    if is_wanted(longer, sym) {
        let w = choose|w: int| 0 <= w < longer.len() && longer[w]@ == sym;
        if w < i {
            assert(shorter[w]@ == sym);
        }
    }
    if is_wanted(shorter, sym) {
        let w = choose|w: int| 0 <= w < shorter.len() && shorter[w]@ == sym;
        assert(longer[w]@ == sym);
    }
    if items[i]@ == sym {
        assert(longer[i]@ == sym);
    }
}

/// Builds the analysis for the goods `items` from what was fetched about each
/// market location and, where they could be fetched, the agent's contracts.
/// Distances are measured from `(current_x, current_y)`; a location whose
/// details or goods are missing contributes no quote.
pub fn analyze_markets(
    current_x: i32,
    current_y: i32,
    items: &[String],
    surveys: &Vec<MarketSurvey>,
    contracts: Option<&Vec<Contract>>,
) -> (r: MarketAnalysis)
    ensures
        symbols_distinct(r.prices@),
        forall|sym: Seq<char>|
            #[trigger] r.quotes(sym) == if is_wanted(items@, sym) {
                survey_quotes(surveys@, sym, current_x as int, current_y as int)
            } else {
                Seq::<MarketPriceInfo>::empty()
            },
        r.requirements@ == match contracts {
            Some(cs) => all_requirements(cs@),
            None => seq![],
        },
        r.failed_markets@ == failed_locations(surveys@),
{
    let mut prices: Vec<ItemPrices> = Vec::new();
    let mut i: usize = 0;
    while i < items.len()
        invariant
            i <= items@.len(),
            symbols_distinct(prices@),
            forall|k: int|
                0 <= k < prices@.len() ==> is_wanted(
                    items@.subrange(0, i as int),
                    #[trigger] prices@[k].symbol@,
                ),
            forall|sym: Seq<char>|
                #[trigger] quotes_for(prices@, sym) == if is_wanted(
                    items@.subrange(0, i as int),
                    sym,
                ) {
                    survey_quotes(surveys@, sym, current_x as int, current_y as int)
                } else {
                    Seq::<MarketPriceInfo>::empty()
                },
        decreases items.len() - i,
    {
        let ghost before = prices@;
        let sym = &items[i];
        proof {
            assert forall|s: Seq<char>|
                is_wanted(items@.subrange(0, i + 1), s) == (is_wanted(items@.subrange(0, i as int), s)
                    || items@[i as int]@ == s) by {
                lemma_is_wanted_step(items@, i as int, s);
            }
        }
        let found = find_entry(&prices, sym);
        proof {
            lemma_quotes_for_found(prices@, sym@, found);
        }
        if found.is_none() {
            let quotes = collect_quotes(surveys, sym, current_x, current_y);
            if quotes.len() > 0 {
                let entry = ItemPrices { symbol: sym.clone(), quotes };
                prices.push(entry);
                proof {
                    assert forall|s: Seq<char>| #[trigger]
                        quotes_for(prices@, s) == if is_wanted(items@.subrange(0, i + 1), s) {
                            survey_quotes(surveys@, s, current_x as int, current_y as int)
                        } else {
                            Seq::<MarketPriceInfo>::empty()
                        } by {
                        lemma_quotes_for_push(before, entry, s);
                    }
                    assert forall|k: int|
                        0 <= k < prices@.len() implies is_wanted(
                            items@.subrange(0, i + 1),
                            #[trigger] prices@[k].symbol@,
                        ) by {
                        if k < before.len() {
                            assert(prices@[k] == before[k]);
                        }
                    }
                }
            }
        } else {
            let k = found.unwrap();
            assert(is_wanted(items@.subrange(0, i as int), prices@[k as int].symbol@));
        }
        i += 1;
    }
    assert(items@.subrange(0, items@.len() as int) == items@);
    let requirements = get_contract_requirements(contracts);
    let failed_markets = find_failed_locations(surveys);
    MarketAnalysis { prices, requirements, failed_markets }
}

/// The locations whose details or goods could not be fetched, in order.
fn find_failed_locations(surveys: &Vec<MarketSurvey>) -> (r: Vec<String>)
    ensures
        r@ == failed_locations(surveys@),
{
    let mut failed: Vec<String> = Vec::new();
    let mut i: usize = 0;
    while i < surveys.len()
        invariant
            i <= surveys@.len(),
            failed@ == failed_locations(surveys@.subrange(0, i as int)),
        decreases surveys.len() - i,
    {
        assert(surveys@.subrange(0, i + 1).drop_last() == surveys@.subrange(0, i as int));
        let survey = &surveys[i];
        if survey.details.is_none() || survey.market.is_none() {
            failed.push(survey.waypoint.clone());
        }
        i += 1;
    }
    assert(surveys@.subrange(0, surveys.len() as int) == surveys@);
    failed
}

/// How many of `available` units to sell when `requested` were asked for:
/// all of them where the answer was "all" (`None`), else the amount asked,
/// capped at what is held.
pub fn units_to_sell(requested: Option<i32>, available: i32) -> (r: i32)
    ensures
        r == match requested {
            Some(n) => if n < available { n } else { available },
            None => available,
        },
{
    match requested {
        Some(n) => if n < available { n } else { available },
        None => available,
    }
}

} // verus!
