use swingset::delivery::{can_deliver, delivery_type, send_resolution, DeliveryType};
use swingset::error::KernelError;
use swingset::kernel_types::{
    CapData, CapSlot, ObjectID, PendingDelivery, PromiseID, Resolution, RunQueue, VatID,
};
use swingset::object_table::ObjectTable;
use swingset::promise::{insert_sorted, PromiseError, PromiseState, PromiseTable};
use swingset::vat_names::{bytes_eq, bytes_lt, VatNames};

#[test]
fn objects_are_numbered_in_order() {
    let mut ot = ObjectTable::new();
    assert!(!ot.contains(ObjectID(0)));
    assert_eq!(ot.next_id(), ObjectID(0));
    assert_eq!(ot.allocate(VatID(4)), ObjectID(0));
    assert_eq!(ot.allocate(VatID(2)), ObjectID(1));
    assert_eq!(ot.allocate(VatID(4)), ObjectID(2));
    assert_eq!(ot.owner_of(ObjectID(0)), VatID(4));
    assert_eq!(ot.owner_of(ObjectID(1)), VatID(2));
    assert_eq!(ot.owner_of(ObjectID(2)), VatID(4));
    assert!(ot.contains(ObjectID(2)));
    assert!(!ot.contains(ObjectID(3)));
    assert!(!ot.is_full());
}

#[test]
fn a_new_promise_is_unresolved() {
    let mut pt = PromiseTable::new();
    let p0 = pt.allocate_unresolved(VatID(1), VatID(2));
    let p1 = pt.allocate_unresolved(VatID(3), VatID(3));
    assert_eq!((p0, p1), (PromiseID(0), PromiseID(1)));
    assert_eq!(pt.decider_of(p0), Some(VatID(1)));
    assert_eq!(pt.allocator_of(p0), VatID(2));
    assert_eq!(pt.decider_of(p1), Some(VatID(3)));
    assert_eq!(pt.subscribers_of(p0), vec![]);
    assert_eq!(
        *pt.state_of(p0),
        PromiseState::Unresolved { decider: VatID(1), subscribers: vec![] }
    );
    assert!(pt.contains(p1));
    assert!(!pt.contains(PromiseID(2)));
}

#[test]
fn subscribers_are_a_set_in_order() {
    let mut pt = PromiseTable::new();
    let p = pt.allocate_unresolved(VatID(1), VatID(1));
    for v in [5usize, 2, 9, 2, 5, 0] {
        assert_eq!(pt.subscribe(p, VatID(v)), Ok(()));
    }
    assert_eq!(pt.subscribers_of(p), vec![VatID(0), VatID(2), VatID(5), VatID(9)]);
    assert_eq!(pt.subscribe(PromiseID(7), VatID(1)), Err(PromiseError::Unknown));
}

#[test]
fn insert_sorted_keeps_order_and_drops_repeats() {
    let mut v = vec![];
    for x in [3usize, 1, 2, 3, 0, 4, 1] {
        insert_sorted(&mut v, VatID(x));
    }
    assert_eq!(v, vec![VatID(0), VatID(1), VatID(2), VatID(3), VatID(4)]);
}

#[test]
fn resolve_is_once_and_consumes_the_subscribers() {
    let mut pt = PromiseTable::new();
    let p = pt.allocate_unresolved(VatID(1), VatID(1));
    pt.subscribe(p, VatID(3)).unwrap();
    pt.subscribe(p, VatID(2)).unwrap();
    let data = CapData { body: Vec::from("d"), slots: vec![CapSlot::Object(ObjectID(4))] };
    assert_eq!(pt.resolve(p, Resolution::Data(data.clone())), Ok(vec![VatID(2), VatID(3)]));
    assert_eq!(pt.decider_of(p), None);
    assert_eq!(pt.subscribers_of(p), vec![]);
    assert_eq!(*pt.state_of(p), PromiseState::FulfilledToData(data.clone()));
    assert_eq!(pt.state_of(p).resolution(), Some(Resolution::Data(data.clone())));
    assert_eq!(pt.resolve(p, Resolution::Data(data)), Err(PromiseError::Resolved));
    assert_eq!(pt.subscribe(p, VatID(4)), Err(PromiseError::Resolved));
    assert_eq!(
        pt.resolve(PromiseID(9), Resolution::Reference(CapSlot::Object(ObjectID(0)))),
        Err(PromiseError::Unknown)
    );
}

#[test]
fn each_resolution_has_its_state() {
    let mut pt = PromiseTable::new();
    let a = pt.allocate_unresolved(VatID(1), VatID(1));
    let b = pt.allocate_unresolved(VatID(1), VatID(1));
    let c = pt.allocate_unresolved(VatID(1), VatID(1));
    let data = CapData { body: Vec::from("oops"), slots: vec![] };
    pt.resolve(a, Resolution::Reference(CapSlot::Object(ObjectID(6)))).unwrap();
    pt.resolve(b, Resolution::Rejection(data.clone())).unwrap();
    assert_eq!(*pt.state_of(a), PromiseState::FulfilledToTarget(ObjectID(6)));
    assert_eq!(*pt.state_of(b), PromiseState::Rejected(data.clone()));
    assert_eq!(
        pt.state_of(a).resolution(),
        Some(Resolution::Reference(CapSlot::Object(ObjectID(6))))
    );
    assert_eq!(pt.state_of(b).resolution(), Some(Resolution::Rejection(data)));
    assert_eq!(pt.state_of(c).resolution(), None);
    assert_eq!(
        pt.resolve(c, Resolution::Reference(CapSlot::Promise(a))),
        Err(PromiseError::ReferenceToPromise)
    );
    assert_eq!(pt.decider_of(c), Some(VatID(1)));
}

#[test]
fn a_message_goes_to_the_owner_or_the_decider() {
    let mut ot = ObjectTable::new();
    let mut pt = PromiseTable::new();
    let o = ot.allocate(VatID(7));
    let unresolved = pt.allocate_unresolved(VatID(3), VatID(1));
    let to_target = pt.allocate_unresolved(VatID(3), VatID(1));
    let to_data = pt.allocate_unresolved(VatID(3), VatID(1));
    let rejected = pt.allocate_unresolved(VatID(3), VatID(1));
    pt.resolve(to_target, Resolution::Reference(CapSlot::Object(o))).unwrap();
    pt.resolve(
        to_data,
        Resolution::Data(CapData { body: Vec::from("4"), slots: vec![CapSlot::Object(o)] }),
    )
    .unwrap();
    let error = CapData { body: Vec::from("oops"), slots: vec![CapSlot::Object(o)] };
    pt.resolve(rejected, Resolution::Rejection(error.clone())).unwrap();

    assert_eq!(delivery_type(CapSlot::Object(o), &ot, &pt), DeliveryType::Send(VatID(7)));
    assert_eq!(delivery_type(CapSlot::Promise(unresolved), &ot, &pt), DeliveryType::Send(VatID(3)));
    assert_eq!(delivery_type(CapSlot::Promise(to_target), &ot, &pt), DeliveryType::Send(VatID(7)));
    assert_eq!(
        delivery_type(CapSlot::Promise(to_data), &ot, &pt),
        DeliveryType::Error(CapData {
            body: Vec::from("cannot send message to data (4)"),
            slots: vec![],
        })
    );
    assert_eq!(delivery_type(CapSlot::Promise(rejected), &ot, &pt), DeliveryType::Error(error));
}

#[test]
fn only_live_targets_can_be_classified() {
    let mut ot = ObjectTable::new();
    let mut pt = PromiseTable::new();
    let o = ot.allocate(VatID(7));
    let p = pt.allocate_unresolved(VatID(3), VatID(1));
    let q = pt.allocate_unresolved(VatID(3), VatID(1));
    pt.resolve(q, Resolution::Reference(CapSlot::Object(ObjectID(9)))).unwrap();
    assert!(can_deliver(CapSlot::Object(o), &ot, &pt));
    assert!(can_deliver(CapSlot::Promise(p), &ot, &pt));
    assert!(!can_deliver(CapSlot::Object(ObjectID(1)), &ot, &pt));
    assert!(!can_deliver(CapSlot::Promise(PromiseID(2)), &ot, &pt));
    assert!(!can_deliver(CapSlot::Promise(q), &ot, &pt));
}

#[test]
fn a_resolution_reaches_every_subscriber_once() {
    let mut pt = PromiseTable::new();
    let mut rq = RunQueue::new();
    let p = pt.allocate_unresolved(VatID(1), VatID(1));
    pt.subscribe(p, VatID(4)).unwrap();
    pt.subscribe(p, VatID(2)).unwrap();
    let r = Resolution::Rejection(CapData { body: Vec::from("no"), slots: vec![] });
    assert_eq!(send_resolution(&mut pt, &mut rq, p, r.clone()), Ok(()));
    assert_eq!(rq.len(), 2);
    assert_eq!(
        rq.pop(),
        Some(PendingDelivery::Notify { vat_id: VatID(2), promise: p, resolution: r.clone() })
    );
    assert_eq!(
        rq.pop(),
        Some(PendingDelivery::Notify { vat_id: VatID(4), promise: p, resolution: r.clone() })
    );
    assert_eq!(rq.pop(), None);
    assert_eq!(send_resolution(&mut pt, &mut rq, p, r.clone()), Err(KernelError::Unauthorized));
    assert_eq!(send_resolution(&mut pt, &mut rq, PromiseID(5), r), Err(KernelError::Dangling));
    assert_eq!(rq.len(), 0);
}

#[test]
fn the_queue_is_first_in_first_out() {
    let mut rq = RunQueue::new();
    let pd = |n: usize| PendingDelivery::Notify {
        vat_id: VatID(n),
        promise: PromiseID(n),
        resolution: Resolution::Reference(CapSlot::Object(ObjectID(n))),
    };
    rq.add(pd(1));
    rq.add(pd(2));
    assert_eq!(rq.pop(), Some(pd(1)));
    rq.add(pd(3));
    assert_eq!(rq.pop(), Some(pd(2)));
    assert_eq!(rq.pop(), Some(pd(3)));
    assert_eq!(rq.pop(), None);
}

#[test]
fn strings_are_ordered_by_their_bytes() {
    let lt = |a: &str, b: &str| bytes_lt(&Vec::from(a), &Vec::from(b));
    for (a, b) in [("", "a"), ("a", "b"), ("a", "ab"), ("ab", "b"), ("B", "a"), ("abc", "abd")] {
        assert!(lt(a, b), "{:?} < {:?}", a, b);
        assert!(!lt(b, a), "{:?} < {:?}", b, a);
        assert_eq!(lt(a, b), a < b);
    }
    assert!(!lt("", ""));
    assert!(!lt("same", "same"));
    assert!(bytes_eq(&Vec::from("same"), &Vec::from("same")));
    assert!(!bytes_eq(&Vec::from("same"), &Vec::from("sam")));
    assert!(!bytes_eq(&Vec::from("same"), &Vec::from("sane")));
}

#[test]
fn names_are_kept_in_order() {
    let mut n = VatNames::new();
    assert_eq!(n.add("m"), VatID(0));
    assert_eq!(n.add("z"), VatID(1));
    assert_eq!(n.add("a"), VatID(2));
    assert_eq!(n.add("m"), VatID(3));
    assert_eq!(n.len(), 3);
    assert_eq!((n.vat_at(0), n.vat_at(1), n.vat_at(2)), (VatID(2), VatID(3), VatID(1)));
    assert!(!n.is_full());
}
