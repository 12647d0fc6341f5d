use swingset::error::KernelError;
use swingset::kernel::{Kernel, Step, Turn};
use swingset::kernel_types::{
    CapData as KernelCapData, CapSlot as KernelCapSlot, Message as KernelMessage, PendingDelivery,
    PromiseID as KernelPromiseID, Resolution as KernelResolution, VatID,
};
use swingset::promise::PromiseState;
use swingset::vat::{CapData, CapSlot, InboundTarget, Message, ObjectID, PromiseID, Resolution};

/// Two vats; `boot` holds `right`'s root as its import -1.
fn two_vats() -> (Kernel, VatID, VatID) {
    let mut k = Kernel::new();
    let boot = k.add_vat("boot").unwrap();
    let right = k.add_vat("right").unwrap();
    let right_root = k.root_of(right).unwrap();
    k.add_import(right_root, boot, -1).unwrap();
    (k, boot, right)
}

fn kernel_promise(k: &Kernel, vat: VatID, id: isize) -> KernelPromiseID {
    KernelPromiseID(k.vat_data().get(vat).promise_clist.get_outbound(id).unwrap())
}

#[test]
fn pipelining() {
    let (mut k, boot, right) = two_vats();
    let right_root = k.root_of(right).unwrap();
    let foo_result = PromiseID(1);
    let bar_result = PromiseID(2);
    {
        let mut s = k.syscall(boot);
        s.send(CapSlot::Object(ObjectID(-1)), Message::new("foo", b"", &[], Some(foo_result))).unwrap();
        s.send(CapSlot::Promise(foo_result), Message::new("bar", b"", &[], Some(bar_result))).unwrap();
    }
    let foo_kernel = kernel_promise(&k, boot, 1);
    let bar_kernel = kernel_promise(&k, boot, 2);
    assert_ne!(foo_kernel, bar_kernel);
    assert_eq!(k.promises().decider_of(foo_kernel), Some(right));
    assert_eq!(k.promises().decider_of(bar_kernel), Some(right));
    assert_eq!(k.promises().allocator_of(foo_kernel), boot);
    assert_eq!(k.promises().allocator_of(bar_kernel), boot);
    assert_eq!(k.run_queue().len(), 2);
    assert_eq!(
        k.get_next(),
        Some(PendingDelivery::Deliver {
            target: KernelCapSlot::Object(right_root),
            message: KernelMessage {
                method: String::from("foo"),
                args: KernelCapData { body: vec![], slots: vec![] },
                result: Some(foo_kernel),
            },
        })
    );
    assert_eq!(
        k.get_next(),
        Some(PendingDelivery::Deliver {
            target: KernelCapSlot::Promise(foo_kernel),
            message: KernelMessage {
                method: String::from("bar"),
                args: KernelCapData { body: vec![], slots: vec![] },
                result: Some(bar_kernel),
            },
        })
    );
    assert_eq!(k.get_next(), None);
}

#[test]
fn a_pipelined_message_reaches_the_decider() {
    let (mut k, boot, right) = two_vats();
    let foo_result = PromiseID(1);
    {
        let mut s = k.syscall(boot);
        s.send(CapSlot::Object(ObjectID(-1)), Message::new("foo", b"", &[], Some(foo_result))).unwrap();
        s.send(CapSlot::Promise(foo_result), Message::new("bar", b"", &[], None)).unwrap();
    }
    match k.step().unwrap() {
        Step::Dispatch(Turn::Deliver { vat_id, target, message }) => {
            assert_eq!(vat_id, right);
            assert_eq!(target, InboundTarget::Object(ObjectID(0)));
            assert_eq!(message.result, Some(PromiseID(-1)));
        }
        other => panic!("unexpected step {:?}", other),
    }
    match k.step().unwrap() {
        Step::Dispatch(Turn::Deliver { vat_id, target, message }) => {
            assert_eq!(vat_id, right);
            assert_eq!(target, InboundTarget::Promise(PromiseID(-1)));
            assert_eq!(message.method, "bar");
        }
        other => panic!("unexpected step {:?}", other),
    }
}

/// `boot` introduces promise 5 in a message to `right`, and `right`
/// subscribes to it.
fn subscribed() -> (Kernel, VatID, VatID, PromiseID) {
    let (mut k, boot, right) = two_vats();
    let p = PromiseID(5);
    k.syscall(boot)
        .send(
            CapSlot::Object(ObjectID(-1)),
            Message::new("have_promise", b"body", &[CapSlot::Promise(p)], None),
        )
        .unwrap();
    let p_local = match k.step().unwrap() {
        Step::Dispatch(Turn::Deliver { vat_id, message, .. }) => {
            assert_eq!(vat_id, right);
            match message.args.slots[0] {
                CapSlot::Promise(id) => id,
                other => panic!("not a promise: {:?}", other),
            }
        }
        other => panic!("unexpected step {:?}", other),
    };
    assert_eq!(p_local, PromiseID(-1));
    k.syscall(right).subscribe(p_local).unwrap();
    let kp = kernel_promise(&k, boot, 5);
    assert_eq!(k.promises().decider_of(kp), Some(boot));
    assert_eq!(k.promises().subscribers_of(kp), vec![right]);
    (k, boot, right, p_local)
}

#[test]
fn subscribe_then_resolve_to_data() {
    let (mut k, boot, right, p_local) = subscribed();
    let data = CapData::new(
        b"p2data",
        &[CapSlot::Object(ObjectID(10)), CapSlot::Object(ObjectID(-1))],
    );
    k.syscall(boot).resolve(PromiseID(5), Resolution::Data(data)).unwrap();
    let kp = kernel_promise(&k, boot, 5);
    assert_eq!(k.promises().decider_of(kp), None);
    assert_eq!(k.promises().subscribers_of(kp), vec![]);
    match k.step().unwrap() {
        Step::Dispatch(Turn::Notify { vat_id, promise, resolution }) => {
            assert_eq!(vat_id, right);
            assert_eq!(promise, p_local);
            assert_eq!(
                resolution,
                Resolution::Data(CapData::new(
                    b"p2data",
                    &[CapSlot::Object(ObjectID(-1)), CapSlot::Object(ObjectID(0))],
                ))
            );
        }
        other => panic!("unexpected step {:?}", other),
    }
    assert_eq!(k.step(), Ok(Step::Idle));
}

#[test]
fn subscribe_then_resolve_to_target() {
    let (mut k, boot, right, p_local) = subscribed();
    k.syscall(boot)
        .resolve(PromiseID(5), Resolution::Reference(CapSlot::Object(ObjectID(10))))
        .unwrap();
    let kp = kernel_promise(&k, boot, 5);
    let target = k.vat_data().get(boot).object_clist.get_outbound(10).unwrap();
    assert_eq!(
        *k.promises().state_of(kp),
        PromiseState::FulfilledToTarget(swingset::kernel_types::ObjectID(target))
    );
    assert_eq!(
        k.step(),
        Ok(Step::Dispatch(Turn::Notify {
            vat_id: right,
            promise: p_local,
            resolution: Resolution::Reference(CapSlot::Object(ObjectID(-1))),
        }))
    );
    // a message to the promise now goes on to the owner of the target
    k.syscall(right).send(CapSlot::Promise(p_local), Message::new("hi", b"", &[], None)).unwrap();
    match k.step().unwrap() {
        Step::Dispatch(Turn::Deliver { vat_id, target, .. }) => {
            assert_eq!(vat_id, boot);
            assert_eq!(target, InboundTarget::Promise(PromiseID(5)));
        }
        other => panic!("unexpected step {:?}", other),
    }
}

#[test]
fn subscribe_then_reject() {
    let (mut k, boot, right, p_local) = subscribed();
    let data = CapData::new(
        b"p2data",
        &[CapSlot::Object(ObjectID(10)), CapSlot::Object(ObjectID(-1))],
    );
    k.syscall(boot).resolve(PromiseID(5), Resolution::Rejection(data)).unwrap();
    assert_eq!(
        k.step(),
        Ok(Step::Dispatch(Turn::Notify {
            vat_id: right,
            promise: p_local,
            resolution: Resolution::Rejection(CapData::new(
                b"p2data",
                &[CapSlot::Object(ObjectID(-1)), CapSlot::Object(ObjectID(0))],
            )),
        }))
    );
}

#[test]
fn dead_letter_rejects_the_result() {
    let (mut k, boot, right, p_local) = subscribed();
    k.syscall(boot)
        .resolve(PromiseID(5), Resolution::Rejection(CapData::new(b"oops", &[])))
        .unwrap();
    // right is told of the rejection
    assert!(matches!(k.step(), Ok(Step::Dispatch(Turn::Notify { .. }))));
    // right has a promise q of its own that boot waits for
    let q = PromiseID(8);
    k.syscall(right)
        .send(CapSlot::Promise(p_local), Message::new("take", b"", &[CapSlot::Promise(q)], None))
        .unwrap();
    // that message was a dead letter without a result: nothing was queued
    assert_eq!(k.run_queue().len(), 0);
    let root_of_boot = k.root_of(boot).unwrap();
    k.add_import(root_of_boot, right, -7).unwrap();
    k.syscall(right)
        .send(CapSlot::Object(ObjectID(-7)), Message::new("take", b"", &[CapSlot::Promise(q)], None))
        .unwrap();
    let q_at_boot = match k.step().unwrap() {
        Step::Dispatch(Turn::Deliver { vat_id, message, .. }) => {
            assert_eq!(vat_id, boot);
            match message.args.slots[0] {
                CapSlot::Promise(id) => id,
                other => panic!("not a promise: {:?}", other),
            }
        }
        other => panic!("unexpected step {:?}", other),
    };
    k.syscall(boot).subscribe(q_at_boot).unwrap();
    let kq = kernel_promise(&k, right, 8);

    // now the dead letter: a send to the rejected promise, with result q
    k.syscall(right)
        .send(CapSlot::Promise(p_local), Message::new("foo", b"", &[], Some(q)))
        .unwrap();
    assert_eq!(
        *k.promises().state_of(kq),
        PromiseState::Rejected(KernelCapData { body: Vec::from("oops"), slots: vec![] })
    );
    assert_eq!(k.run_queue().len(), 1);
    assert_eq!(
        k.get_next(),
        Some(PendingDelivery::Notify {
            vat_id: boot,
            promise: kq,
            resolution: KernelResolution::Rejection(KernelCapData {
                body: Vec::from("oops"),
                slots: vec![],
            }),
        })
    );
}

#[test]
fn a_message_to_data_is_a_dead_letter() {
    let (mut k, boot, right, p_local) = subscribed();
    k.syscall(boot)
        .resolve(PromiseID(5), Resolution::Data(CapData::new(b"four", &[])))
        .unwrap();
    assert!(matches!(k.step(), Ok(Step::Dispatch(Turn::Notify { .. }))));
    // right sends q to boot, so that the kernel knows it, and boot subscribes
    let q = PromiseID(8);
    let root_of_boot = k.root_of(boot).unwrap();
    k.add_import(root_of_boot, right, -7).unwrap();
    k.syscall(right)
        .send(CapSlot::Object(ObjectID(-7)), Message::new("take", b"", &[CapSlot::Promise(q)], None))
        .unwrap();
    assert!(matches!(k.step(), Ok(Step::Dispatch(Turn::Deliver { .. }))));
    k.syscall(boot).subscribe(PromiseID(-1)).unwrap();
    let kq = kernel_promise(&k, right, 8);
    k.syscall(right)
        .send(CapSlot::Promise(p_local), Message::new("foo", b"", &[], Some(q)))
        .unwrap();
    assert_eq!(
        k.get_next(),
        Some(PendingDelivery::Notify {
            vat_id: boot,
            promise: kq,
            resolution: KernelResolution::Rejection(KernelCapData {
                body: Vec::from("cannot send message to data (four)"),
                slots: vec![],
            }),
        })
    );
}

#[test]
fn a_message_that_dies_in_the_queue_rejects_its_result() {
    let (mut k, boot, right, p_local) = subscribed();
    // right pipelines a message to the promise, with a result it waits for
    let q = PromiseID(8);
    {
        let mut s = k.syscall(right);
        s.send(CapSlot::Promise(p_local), Message::new("foo", b"", &[], Some(q))).unwrap();
        s.subscribe(q).unwrap();
    }
    let kq = kernel_promise(&k, right, 8);
    assert_eq!(k.promises().decider_of(kq), Some(boot));
    // before it is delivered, boot rejects the promise
    k.syscall(boot)
        .resolve(PromiseID(5), Resolution::Rejection(CapData::new(b"gone", &[])))
        .unwrap();
    assert_eq!(k.run_queue().len(), 2);
    assert_eq!(k.step(), Ok(Step::DeadLetter));
    assert_eq!(
        *k.promises().state_of(kq),
        PromiseState::Rejected(KernelCapData { body: Vec::from("gone"), slots: vec![] })
    );
    // the notification of the first rejection, then that of the result
    assert!(matches!(
        k.step(),
        Ok(Step::Dispatch(Turn::Notify { promise: PromiseID(-1), .. }))
    ));
    assert_eq!(
        k.step(),
        Ok(Step::Dispatch(Turn::Notify {
            vat_id: right,
            promise: q,
            resolution: Resolution::Rejection(CapData::new(b"gone", &[])),
        }))
    );
}

#[test]
fn subscribe_after_resolution() {
    let (mut k, boot, right) = two_vats();
    let p = PromiseID(5);
    k.syscall(boot)
        .send(
            CapSlot::Object(ObjectID(-1)),
            Message::new("have_promise", b"body", &[CapSlot::Promise(p)], None),
        )
        .unwrap();
    assert!(matches!(k.step(), Ok(Step::Dispatch(Turn::Deliver { .. }))));
    k.syscall(boot)
        .resolve(p, Resolution::Data(CapData::new(b"done", &[CapSlot::Object(ObjectID(0))])))
        .unwrap();
    assert_eq!(k.run_queue().len(), 0);
    let kp = kernel_promise(&k, boot, 5);
    let boot_root = k.root_of(boot).unwrap();
    {
        let mut s = k.syscall(right);
        s.subscribe(PromiseID(-1)).unwrap();
        // work that is queued later stays behind the notification
        s.send(CapSlot::Object(ObjectID(0)), Message::new("later", b"", &[], None)).unwrap();
    }
    assert_eq!(k.run_queue().len(), 2);
    assert_eq!(
        k.get_next(),
        Some(PendingDelivery::Notify {
            vat_id: right,
            promise: kp,
            resolution: KernelResolution::Data(KernelCapData {
                body: Vec::from("done"),
                slots: vec![KernelCapSlot::Object(boot_root)],
            }),
        })
    );
    assert!(matches!(k.get_next(), Some(PendingDelivery::Deliver { .. })));
}

#[test]
fn subscribers_are_notified_in_vat_order() {
    let mut k = Kernel::new();
    let vats: Vec<VatID> = ["a", "b", "c", "d"].iter().map(|n| k.add_vat(n).unwrap()).collect();
    let p = PromiseID(1);
    // a introduces p to d, c and b, in that order
    for (i, v) in [3usize, 2, 1].iter().enumerate() {
        let root = k.root_of(vats[*v]).unwrap();
        let import = -1 - (i as isize);
        k.add_import(root, vats[0], import).unwrap();
        k.syscall(vats[0])
            .send(CapSlot::Object(ObjectID(import)), Message::new("p", b"", &[CapSlot::Promise(p)], None))
            .unwrap();
        match k.step().unwrap() {
            Step::Dispatch(Turn::Deliver { vat_id, message, .. }) => {
                assert_eq!(vat_id, vats[*v]);
                let local = match message.args.slots[0] {
                    CapSlot::Promise(id) => id,
                    other => panic!("not a promise: {:?}", other),
                };
                k.syscall(vat_id).subscribe(local).unwrap();
                k.syscall(vat_id).subscribe(local).unwrap();
            }
            other => panic!("unexpected step {:?}", other),
        }
    }
    let kp = kernel_promise(&k, vats[0], 1);
    assert_eq!(k.promises().subscribers_of(kp), vec![vats[1], vats[2], vats[3]]);
    k.syscall(vats[0]).resolve(p, Resolution::Data(CapData::new(b"x", &[]))).unwrap();
    let mut notified = vec![];
    while let Some(PendingDelivery::Notify { vat_id, .. }) = k.get_next() {
        notified.push(vat_id);
    }
    assert_eq!(notified, vec![vats[1], vats[2], vats[3]]);
}

#[test]
fn only_the_decider_resolves_and_only_once() {
    let (mut k, boot, right, p_local) = subscribed();
    assert_eq!(
        k.syscall(right).resolve(p_local, Resolution::Data(CapData::new(b"x", &[]))),
        Err(KernelError::Unauthorized)
    );
    assert_eq!(
        k.syscall(boot).resolve(PromiseID(5), Resolution::Data(CapData::new(b"x", &[]))),
        Ok(())
    );
    assert_eq!(
        k.syscall(boot).resolve(PromiseID(5), Resolution::Data(CapData::new(b"y", &[]))),
        Err(KernelError::Unauthorized)
    );
}

#[test]
fn a_promise_is_not_fulfilled_to_a_promise() {
    let (mut k, boot, _right, _p_local) = subscribed();
    assert_eq!(
        k.syscall(boot)
            .resolve(PromiseID(5), Resolution::Reference(CapSlot::Promise(PromiseID(6)))),
        Err(KernelError::ReferenceToPromise)
    );
    let kp = kernel_promise(&k, boot, 5);
    assert_eq!(k.promises().decider_of(kp), Some(boot));
}

#[test]
fn what_a_vat_was_never_granted_it_cannot_name() {
    let (mut k, boot, _right) = two_vats();
    let m = || Message::new("foo", b"", &[], None);
    assert_eq!(
        k.syscall(boot).send(CapSlot::Object(ObjectID(-9)), m()),
        Err(KernelError::Confinement)
    );
    assert_eq!(
        k.syscall(boot).send(CapSlot::Promise(PromiseID(3)), m()),
        Err(KernelError::Confinement)
    );
    assert_eq!(
        k.syscall(boot).send(
            CapSlot::Object(ObjectID(-1)),
            Message::new("foo", b"", &[CapSlot::Object(ObjectID(-9))], None)
        ),
        Err(KernelError::Confinement)
    );
    assert_eq!(k.syscall(boot).subscribe(PromiseID(3)), Err(KernelError::Confinement));
    assert_eq!(
        k.syscall(boot).resolve(PromiseID(3), Resolution::Data(CapData::new(b"", &[]))),
        Err(KernelError::Confinement)
    );
    assert_eq!(k.run_queue().len(), 0);
    assert_eq!(
        k.syscall(VatID(9)).send(CapSlot::Object(ObjectID(0)), m()),
        Err(KernelError::MissingVat)
    );
    assert_eq!(k.syscall(VatID(9)).subscribe(PromiseID(0)), Err(KernelError::MissingVat));
}

#[test]
fn the_first_way_out_creates_the_kernel_object() {
    let (mut k, boot, right) = two_vats();
    let send = |k: &mut Kernel| {
        k.syscall(boot)
            .send(
                CapSlot::Object(ObjectID(-1)),
                Message::new("foo", b"", &[CapSlot::Object(ObjectID(22))], None),
            )
            .unwrap()
    };
    send(&mut k);
    let o = k.vat_data().get(boot).object_clist.get_outbound(22).unwrap();
    assert_eq!(k.objects().owner_of(swingset::kernel_types::ObjectID(o)), boot);
    send(&mut k);
    assert_eq!(k.vat_data().get(boot).object_clist.get_outbound(22), Some(o));
    // right sees one import for both
    let mut seen = vec![];
    while let Step::Dispatch(Turn::Deliver { vat_id, message, .. }) = k.step().unwrap() {
        assert_eq!(vat_id, right);
        seen.push(message.args.slots[0]);
    }
    assert_eq!(seen, vec![CapSlot::Object(ObjectID(-1)), CapSlot::Object(ObjectID(-1))]);
    // and when right sends it back, boot sees its own export
    k.add_import(k.root_of(boot).unwrap(), right, -5).unwrap();
    k.syscall(right)
        .send(
            CapSlot::Object(ObjectID(-5)),
            Message::new("back", b"", &[CapSlot::Object(ObjectID(-1))], None),
        )
        .unwrap();
    match k.step().unwrap() {
        Step::Dispatch(Turn::Deliver { vat_id, message, .. }) => {
            assert_eq!(vat_id, boot);
            assert_eq!(message.args.slots, vec![CapSlot::Object(ObjectID(22))]);
        }
        other => panic!("unexpected step {:?}", other),
    }
}

#[test]
fn the_result_is_allocated_before_the_arguments() {
    let (mut k, boot, right) = two_vats();
    let p = PromiseID(1);
    k.syscall(boot)
        .send(
            CapSlot::Object(ObjectID(-1)),
            Message::new("foo", b"", &[CapSlot::Promise(p)], Some(p)),
        )
        .unwrap();
    let kp = kernel_promise(&k, boot, 1);
    assert_eq!(k.promises().decider_of(kp), Some(right));
    assert_eq!(
        k.get_next(),
        Some(PendingDelivery::Deliver {
            target: KernelCapSlot::Object(k.root_of(right).unwrap()),
            message: KernelMessage {
                method: String::from("foo"),
                args: KernelCapData { body: vec![], slots: vec![KernelCapSlot::Promise(kp)] },
                result: Some(kp),
            },
        })
    );
}
