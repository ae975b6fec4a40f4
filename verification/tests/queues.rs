use glex::device_select::QueueDiscovery;
use glex::queue_caps::QueueHandle;
use glex::queue_lane::QueueLane;

#[test]
fn each_chosen_family_gets_its_queue() {
    let d = QueueDiscovery { graphics: Some(0), compute: Some(2), transfer: vec![3, 1], present: None };
    let lane = QueueLane::new(&d, |family: u32| 1000 + family as u64);
    assert_eq!((lane.graphics().raw(), lane.graphics().family()), (1000, 0));
    assert!(lane.present().is_none());
    let c = lane.compute().unwrap();
    assert_eq!((c.raw(), c.family()), (1002, 2));
    assert_eq!(lane.transfer_count(), 2);
    assert_eq!(lane.transfer_family(), Some(3));
    assert_eq!(lane.transfer(1).map(|q| q.raw()), Some(1001));
    assert!(lane.transfer(2).is_none());
    assert_eq!(lane.transfer_queues().len(), 2);
}

#[test]
fn frames_take_the_transfer_queues_in_turn() {
    let d = QueueDiscovery { graphics: Some(0), compute: None, transfer: vec![4, 5, 6], present: Some(0) };
    let lane = QueueLane::new(&d, |family: u32| family as u64 * 10);
    let families: Vec<u32> = (0..7).map(|f| lane.next_transfer(f).family()).collect();
    assert_eq!(families, vec![4, 5, 6, 4, 5, 6, 4]);
    assert_eq!(lane.present().map(|q| q.raw()), Some(0));
    assert!(lane.compute().is_none());
}
