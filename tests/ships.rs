use spacetraders_client::ships::{ShipNav, ShipRegistration};

fn nav(status: &str) -> ShipNav {
    ShipNav {
        status: status.to_string(),
        waypoint_symbol: "X1-PS34-A1".to_string(),
        system_symbol: "X1-PS34".to_string(),
        route: None,
    }
}

#[test]
fn nav_status_is_read_exactly() {
    assert!(nav("DOCKED").is_docked());
    assert!(!nav("DOCKED").is_in_orbit());
    assert!(nav("IN_ORBIT").is_in_orbit());
    assert!(!nav("IN_TRANSIT").is_docked());
    assert!(!nav("IN_TRANSIT").is_in_orbit());
}

#[test]
fn only_excavators_mine() {
    let reg = |role: &str| ShipRegistration {
        name: "MINER-1".to_string(),
        faction_symbol: "COSMIC".to_string(),
        role: role.to_string(),
    };
    assert!(reg("EXCAVATOR").is_excavator());
    assert!(!reg("COMMAND").is_excavator());
}
