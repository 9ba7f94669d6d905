use vstd::prelude::*;

verus! {

/// Where a ship is and what it is doing.
#[derive(Debug, Clone, PartialEq, Eq)]
pub struct ShipNav {
    pub status: String,
    pub waypoint_symbol: String,
    pub system_symbol: String,
    pub route: Option<ShipRoute>,
}

/// The legs of a ship's current or last flight.
#[derive(Debug, Clone, PartialEq, Eq)]
pub struct ShipRoute {
    pub destination: Option<ShipLocation>,
    pub departure: Option<ShipLocation>,
    pub departure_time: Option<String>,
    pub arrival_time: Option<String>,
}

/// One end of a route.
#[derive(Debug, Clone, PartialEq, Eq)]
pub struct ShipLocation {
    pub symbol: String,
    pub location_type: String,
    pub system_symbol: String,
    pub x: i32,
    pub y: i32,
}

/// Name, owner and role of a ship.
#[derive(Debug, Clone, PartialEq, Eq)]
pub struct ShipRegistration {
    pub name: String,
    pub faction_symbol: String,
    pub role: String,
}

/// The hold of a ship: its capacity, how much it holds, and of what.
#[derive(Debug, Clone, PartialEq, Eq)]
pub struct ShipCargo {
    pub capacity: i32,
    pub units: i32,
    pub inventory: Vec<CargoItem>,
}

/// One good held in a ship's hold.
#[derive(Debug, Clone, PartialEq, Eq)]
pub struct CargoItem {
    pub symbol: String,
    pub name: String,
    pub description: String,
    pub units: i32,
}

/// The cooldown that the server reports after an action.
#[derive(Debug, Clone, PartialEq, Eq)]
pub struct ShipCooldown {
    pub ship_symbol: String,
    pub total_seconds: i32,
    pub remaining_seconds: i32,
}

/// The payload of a successful extraction.
#[derive(Debug, Clone, PartialEq, Eq)]
pub struct ExtractionResponse {
    pub extraction: Extraction,
    pub cargo: ShipCargo,
    pub cooldown: ShipCooldown,
}

/// Which ship extracted, and what it got.
#[derive(Debug, Clone, PartialEq, Eq)]
pub struct Extraction {
    pub ship_symbol: String,
    pub yield_data: Yield,
}

/// The good and the amount that one extraction yielded.
#[derive(Debug, Clone, PartialEq, Eq)]
pub struct Yield {
    pub symbol: String,
    pub units: i32,
}

/// The error payload the server sends when an action is still cooling down.
#[derive(Debug, Clone, PartialEq, Eq)]
pub struct CooldownError {
    pub error: CooldownErrorDetail,
}

/// Message, code and cooldown state of a cooldown error.
#[derive(Debug, Clone, PartialEq, Eq)]
pub struct CooldownErrorDetail {
    pub message: String,
    pub code: i32,
    pub data: CooldownData,
}

/// A ship's cooldown as the server states it.
#[derive(Debug, Clone, PartialEq, Eq)]
pub struct CooldownData {
    pub cooldown_remaining: i32,
    pub total_cooldown: i32,
    pub expiration: String,
}

impl ShipNav {
    /// Whether the ship is docked at its waypoint.
    pub fn is_docked(&self) -> (r: bool)
        ensures
            r == (self.status@ == "DOCKED"@),
    {
        self.status == "DOCKED".to_owned()
    }

    /// Whether the ship is in orbit around its waypoint.
    pub fn is_in_orbit(&self) -> (r: bool)
        ensures
            r == (self.status@ == "IN_ORBIT"@),
    {
        self.status == "IN_ORBIT".to_owned()
    }
}

impl ShipRegistration {
    /// Whether the ship is registered for mining.
    pub fn is_excavator(&self) -> (r: bool)
        ensures
            r == (self.role@ == "EXCAVATOR"@),
    {
        self.role == "EXCAVATOR".to_owned()
    }
}

} // verus!
