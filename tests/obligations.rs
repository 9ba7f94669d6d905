use spacetraders_client::cargo_management::{
    calculate_max_sellable_units, ContractRequirement, MarketAnalysis,
};
use spacetraders_client::contracts::{
    get_contract_requirements, Contract, ContractDelivery, ContractPayment, ContractTerms,
};
use spacetraders_client::ships::CargoItem;

fn delivery(symbol: &str, required: i32, fulfilled: i32, destination: &str) -> ContractDelivery {
    ContractDelivery {
        trade_symbol: symbol.to_string(),
        destination_symbol: destination.to_string(),
        units_required: required,
        units_fulfilled: fulfilled,
    }
}

fn contract(id: &str, accepted: bool, fulfilled: bool, deliver: Option<Vec<ContractDelivery>>) -> Contract {
    Contract {
        id: id.to_string(),
        faction_symbol: "COSMIC".to_string(),
        contract_type: "PROCUREMENT".to_string(),
        terms: ContractTerms {
            deadline: "2030-01-01T00:00:00Z".to_string(),
            payment: ContractPayment { on_accepted: 1000, on_fulfilled: 5000 },
            deliver,
        },
        accepted,
        fulfilled,
        deadline_to_accept: "2029-12-01T00:00:00Z".to_string(),
    }
}

fn requirement(symbol: &str, required: i64, fulfilled: i32, destination: &str) -> ContractRequirement {
    ContractRequirement {
        trade_symbol: symbol.to_string(),
        required_units: required,
        fulfilled_units: fulfilled,
        destination: destination.to_string(),
    }
}

fn item(symbol: &str, units: i32) -> CargoItem {
    CargoItem {
        symbol: symbol.to_string(),
        name: symbol.to_string(),
        description: String::new(),
        units,
    }
}

#[test]
fn accepted_contract_yields_remaining_units() {
    let contracts = vec![contract(
        "c1",
        true,
        false,
        Some(vec![delivery("IRON_ORE", 100, 40, "X1-PS34-H1")]),
    )];
    let reqs = get_contract_requirements(Some(&contracts));
    assert_eq!(reqs, vec![requirement("IRON_ORE", 60, 40, "X1-PS34-H1")]);
}

#[test]
fn unaccepted_or_fulfilled_contracts_yield_nothing() {
    let contracts = vec![
        contract("c1", false, false, Some(vec![delivery("IRON_ORE", 100, 0, "A")])),
        contract("c2", true, true, Some(vec![delivery("COPPER_ORE", 50, 10, "B")])),
        contract("c3", false, true, Some(vec![delivery("QUARTZ_SAND", 20, 0, "C")])),
    ];
    assert!(get_contract_requirements(Some(&contracts)).is_empty());
}

#[test]
fn met_deliveries_yield_nothing() {
    let contracts = vec![contract(
        "c1",
        true,
        false,
        Some(vec![
            delivery("IRON_ORE", 100, 100, "A"),
            delivery("COPPER_ORE", 30, 45, "B"),
            delivery("ALUMINUM_ORE", 10, 9, "C"),
        ]),
    )];
    let reqs = get_contract_requirements(Some(&contracts));
    assert_eq!(reqs, vec![requirement("ALUMINUM_ORE", 1, 9, "C")]);
}

#[test]
fn requirements_keep_contract_and_delivery_order() {
    let contracts = vec![
        contract("c1", true, false, Some(vec![delivery("IRON_ORE", 10, 0, "A"), delivery("COPPER_ORE", 5, 2, "B")])),
        contract("c2", true, false, None),
        contract("c3", true, false, Some(vec![delivery("IRON_ORE", 7, 1, "C")])),
    ];
    let reqs = get_contract_requirements(Some(&contracts));
    assert_eq!(
        reqs,
        vec![
            requirement("IRON_ORE", 10, 0, "A"),
            requirement("COPPER_ORE", 3, 2, "B"),
            requirement("IRON_ORE", 6, 1, "C"),
        ]
    );
}

#[test]
fn failed_contract_fetch_yields_no_requirements() {
    assert!(get_contract_requirements(None).is_empty());
}

#[test]
fn sellable_units_without_requirement_is_everything() {
    assert_eq!(calculate_max_sellable_units(&item("IRON_ORE", 25), None), 25);
    assert_eq!(calculate_max_sellable_units(&item("IRON_ORE", 0), None), 0);
}

#[test]
fn sellable_units_hold_back_what_a_contract_needs() {
    let req = requirement("IRON_ORE", 60, 40, "A");
    assert_eq!(calculate_max_sellable_units(&item("IRON_ORE", 100), Some(&req)), 40);
    assert_eq!(calculate_max_sellable_units(&item("IRON_ORE", 60), Some(&req)), 0);
    assert_eq!(calculate_max_sellable_units(&item("IRON_ORE", 25), Some(&req)), 0);
}

#[test]
fn requirement_lookup_returns_first_for_good() {
    let analysis = MarketAnalysis {
        prices: Vec::new(),
        requirements: vec![
            requirement("COPPER_ORE", 5, 0, "A"),
            requirement("IRON_ORE", 8, 2, "B"),
            requirement("IRON_ORE", 3, 0, "C"),
        ],
        failed_markets: Vec::new(),
    };
    let found = analysis.get_contract_requirement("IRON_ORE").unwrap();
    assert_eq!(found.destination, "B");
    assert_eq!(found.required_units, 8);
    assert!(analysis.get_contract_requirement("GOLD_ORE").is_none());
}
