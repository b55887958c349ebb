use sim_core::types::ids::{pop_key_from_u64, PopKey};
use sim_core::world::{remove_from_subsistence_queue, update_subsistence_queue};

fn key(n: u64) -> PopKey {
    pop_key_from_u64((1 << 32) | n)
}

#[test]
fn queue_keeps_order_and_appends_sorted_newcomers() {
    let mut queue = vec![key(5), key(2)];
    // pop 5 found a job; 2 is still idle; 9 and 3 just lost theirs; 7 works
    let pops = vec![(key(9), false), (key(5), true), (key(2), false), (key(7), true), (key(3), false)];
    update_subsistence_queue(&mut queue, &pops);
    assert_eq!(queue, vec![key(2), key(3), key(9)]);
}

#[test]
fn queue_drops_departed_pops() {
    let mut queue = vec![key(1), key(4)];
    let pops = vec![(key(4), false)];
    update_subsistence_queue(&mut queue, &pops);
    assert_eq!(queue, vec![key(4)]);
    update_subsistence_queue(&mut queue, &[]);
    assert!(queue.is_empty());
}

#[test]
fn dead_pop_leaves_the_queue_others_keep_their_places() {
    let mut queue = vec![key(8), key(1), key(6)];
    remove_from_subsistence_queue(&mut queue, key(1));
    assert_eq!(queue, vec![key(8), key(6)]);
    remove_from_subsistence_queue(&mut queue, key(3));
    assert_eq!(queue, vec![key(8), key(6)]);
    let pops = vec![(key(6), false), (key(8), false), (key(2), false)];
    update_subsistence_queue(&mut queue, &pops);
    assert_eq!(queue, vec![key(8), key(6), key(2)]);
}
