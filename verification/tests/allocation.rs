use sim_core::production::execute::RecipeAllocation;
use sim_core::types::ids::FacilityId;

#[test]
fn total_runs_sums_instances() {
    let mut allocation = RecipeAllocation::new(FacilityId::new(1));
    assert_eq!(allocation.total_runs(), 0);
    allocation.runs.insert(1, 3);
    allocation.runs.insert(2, 2);
    assert_eq!(allocation.total_runs(), 5);
    assert_eq!(allocation.facility_id, FacilityId::new(1));
}
