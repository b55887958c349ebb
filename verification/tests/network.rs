use sim_core::pops::geography::route::{connected_settlements, connects, find_route};
use sim_core::pops::types::ids::SettlementId;
use sim_core::pops::types::location::LocationId;

#[test]
fn connected_settlements_follow_routes() {
    let london = SettlementId::new(0);
    let paris = SettlementId::new(1);
    let amsterdam = SettlementId::new(2);
    let routes = vec![(london, paris), (london, amsterdam)];

    let london_connections = connected_settlements(&routes, london);
    assert_eq!(london_connections.len(), 2);
    assert!(london_connections.contains(&paris));
    assert!(london_connections.contains(&amsterdam));

    let paris_connections = connected_settlements(&routes, paris);
    assert_eq!(paris_connections, vec![london]);
}

#[test]
fn routes_are_undirected() {
    let a = SettlementId::new(1);
    let b = SettlementId::new(2);
    let c = SettlementId::new(3);
    assert!(connects(a, b, b, a));
    assert!(!connects(a, b, a, c));
    let routes = vec![(b, c), (a, b)];
    assert_eq!(find_route(&routes, a, b), Some(1));
    assert_eq!(find_route(&routes, b, a), Some(1));
    assert_eq!(find_route(&routes, a, c), None);
    assert_eq!(connected_settlements(&routes, b), vec![c, a]);
}

#[test]
fn location_of_settlement() {
    assert_eq!(
        LocationId::settlement(SettlementId::new(6)),
        LocationId::Settlement(SettlementId::new(6))
    );
}

#[test]
fn route_found_exactly_for_connected_settlements() {
    let ids: Vec<SettlementId> = (0..4).map(SettlementId::new).collect();
    let routes = vec![(ids[0], ids[1]), (ids[2], ids[0]), (ids[3], ids[3])];
    for &a in &ids {
        let neighbours = connected_settlements(&routes, a);
        for &b in &ids {
            assert_eq!(find_route(&routes, a, b).is_some(), neighbours.contains(&b));
        }
    }
}
