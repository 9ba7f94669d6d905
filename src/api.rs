use vstd::prelude::*;

verus! {

/// The envelope the server wraps every payload in.
#[derive(Debug, Clone, PartialEq, Eq)]
pub struct ApiResponse<T> {
    pub data: T,
}

/// The player's agent.
#[derive(Debug, Clone, PartialEq, Eq)]
pub struct Agent {
    pub account_id: String,
    pub symbol: String,
    pub headquarters: String,
    pub credits: i64,
    pub starting_faction: String,
    pub ship_count: i32,
}

/// A location in a system, with its coordinates and traits.
#[derive(Debug, Clone, PartialEq, Eq)]
pub struct Waypoint {
    pub symbol: String,
    pub waypoint_type: String,
    pub x: i32,
    pub y: i32,
    pub traits: Vec<WaypointTrait>,
    pub orbitals: Vec<WaypointOrbital>,
    pub faction: Option<WaypointFaction>,
}

/// A feature of a waypoint, such as a marketplace or a shipyard.
#[derive(Debug, Clone, PartialEq, Eq)]
pub struct WaypointTrait {
    pub symbol: String,
    pub name: String,
    pub description: String,
}

/// A waypoint that orbits another.
#[derive(Debug, Clone, PartialEq, Eq)]
pub struct WaypointOrbital {
    pub symbol: String,
}

/// The faction that controls a waypoint.
#[derive(Debug, Clone, PartialEq, Eq)]
pub struct WaypointFaction {
    pub symbol: String,
}

/// The trait symbol that marks a waypoint with a marketplace.
pub open spec fn marketplace_symbol() -> Seq<char> {
    "MARKETPLACE"@
}

/// `w` lists a marketplace among its traits.
pub open spec fn is_market(w: Waypoint) -> bool {
    exists|k: int| 0 <= k < w.traits@.len() && #[trigger] w.traits@[k].symbol@ == marketplace_symbol()
}

/// The symbols of the waypoints among `ws` that have a marketplace, in order.
pub open spec fn market_symbols(ws: Seq<Waypoint>) -> Seq<String>
    decreases ws.len(),
{
    if ws.len() == 0 {
        seq![]
    } else {
        market_symbols(ws.drop_last()) + if is_market(ws.last()) {
            seq![ws.last().symbol]
        } else {
            seq![]
        }
    }
}

/// Whether `waypoint` has a marketplace.
pub fn has_marketplace(waypoint: &Waypoint) -> (r: bool)
    ensures
        r == is_market(*waypoint),
{
    let marketplace = "MARKETPLACE".to_owned();
    let mut k: usize = 0;
    while k < waypoint.traits.len()
        invariant
            k <= waypoint.traits@.len(),
            marketplace@ == marketplace_symbol(),
            forall|j: int| 0 <= j < k ==> waypoint.traits@[j].symbol@ != marketplace_symbol(),
        decreases waypoint.traits.len() - k,
    {
        if waypoint.traits[k].symbol == marketplace {
            return true;
        }
        k += 1;
    }
    false
}

/// The symbols of the waypoints of a system that have a marketplace, in the
/// order the system lists them.
pub fn find_all_markets_in_system(waypoints: &Vec<Waypoint>) -> (r: Vec<String>)
    ensures
        r@ == market_symbols(waypoints@),
{
    let mut markets: Vec<String> = Vec::new();
    let mut i: usize = 0;
    while i < waypoints.len()
        invariant
            i <= waypoints@.len(),
            markets@ == market_symbols(waypoints@.subrange(0, i as int)),
        decreases waypoints.len() - i,
    {
        assert(waypoints@.subrange(0, i + 1).drop_last() == waypoints@.subrange(0, i as int));
        if has_marketplace(&waypoints[i]) {
            markets.push(waypoints[i].symbol.clone());
        }
        i += 1;
    }
    assert(waypoints@.subrange(0, waypoints.len() as int) == waypoints@);
    markets
}

} // verus!
