use params::flags::CONST;
use params::node::broadcast_timer::BroadcastTimer;
use params::node::error::Error;
use params::node::event_queue::{dequeue_event, enqueue_event, Event, EventQueue};
use params::node::params::Params;
use params::{Parameter, ParameterFlags, ParameterId, ParameterValue, MAX_PARAMS_PER_OP};

#[test]
fn event_queue_capacity() {
    let mut queue = EventQueue::new();
    for i in 0..32 {
        let e = Event::new(i.into(), ParameterValue::U32(i));
        assert_eq!(enqueue_event(&mut queue, e), Ok(()));
    }
    for i in 0..32 {
        let e = Event::new(i.into(), ParameterValue::U32(i));
        assert_eq!(dequeue_event(&mut queue), Some(e));
    }
}

#[test]
fn event_queue_full_and_empty() {
    let mut queue = EventQueue::new();
    assert_eq!(dequeue_event(&mut queue), None);
    for i in 0..32u32 {
        assert_eq!(enqueue_event(&mut queue, Event::new(i.into(), ParameterValue::U32(i))), Ok(()));
    }
    let extra = Event::from((ParameterId::new(99), ParameterValue::Bool(true)));
    assert_eq!(enqueue_event(&mut queue, extra), Err(Error::Capacity));
    assert_eq!(dequeue_event(&mut queue), Some(Event::new(0u32.into(), ParameterValue::U32(0))));
    assert_eq!(enqueue_event(&mut queue, extra), Ok(()));
}

#[test]
fn event_ordering() {
    let mut queue = EventQueue::new();
    let e1 = Event::new(ParameterId::new(1), ParameterValue::U8(1));
    let e2 = Event::new(ParameterId::new(1), ParameterValue::U8(2));
    assert_eq!(enqueue_event(&mut queue, e1), Ok(()));
    assert_eq!(enqueue_event(&mut queue, e2), Ok(()));
    assert_eq!(dequeue_event(&mut queue), Some(e1));
    assert_eq!(dequeue_event(&mut queue), Some(e2));
    assert_eq!(dequeue_event(&mut queue), None);
}

#[test]
fn capacity() {
    let mut params = Params::new();
    for i in 0..=MAX_PARAMS_PER_OP {
        let p = Parameter::new_with_value(
            ParameterId::new(i as u32),
            ParameterFlags::new_read_only(),
            ParameterValue::U32(i as u32),
        );
        if i >= MAX_PARAMS_PER_OP {
            assert_eq!(params.add(p, 0), Err(Error::Capacity));
        } else {
            assert_eq!(params.add(p, 0), Ok(()));
        }
    }
    assert_eq!(params.len(), MAX_PARAMS_PER_OP);
    assert_eq!(params.get_all_broadcast().len(), 0);
}

#[test]
fn add_duplicate_error() {
    let p = Parameter::new_with_value(
        ParameterId::new(1),
        ParameterFlags::new_read_only(),
        ParameterValue::U8(123),
    );
    let mut params = Params::new();
    assert_eq!(params.add(p, 0), Ok(()));
    assert_eq!(params.add(p, 0), Err(Error::Duplicate));
    assert_eq!(params.len(), 1);
}

#[test]
fn set_not_found_error() {
    let id = ParameterId::new(1);
    let value = ParameterValue::U8(2);
    let mut params = Params::new();
    assert_eq!(params.set(id, value, false, 0), Err(Error::NotFound));
    assert_eq!(params.len(), 0);
}

#[test]
fn set_read_only_error() {
    let p = Parameter::new_with_value(
        ParameterId::new(1),
        ParameterFlags::new_read_only(),
        ParameterValue::U8(123),
    );
    let mut params = Params::new();
    assert_eq!(params.add(p, 0), Ok(()));
    assert_eq!(
        params.set(p.id(), ParameterValue::U8(2), false, 0),
        Err(Error::PermissionDenied)
    );
    // allow_read_only = true, the application can change read-only
    assert_eq!(params.set(p.id(), ParameterValue::U8(2), true, 0), Ok(()));
}

#[test]
fn set_constant_error() {
    let p = Parameter::new_with_value(
        ParameterId::new(1),
        ParameterFlags::new_from_flags(CONST),
        ParameterValue::U8(123),
    );
    let mut params = Params::new();
    assert_eq!(params.add(p, 0), Ok(()));
    assert_eq!(
        params.set(p.id(), ParameterValue::U8(2), false, 0),
        Err(Error::PermissionDenied)
    );
    assert_eq!(
        params.set(p.id(), ParameterValue::U8(2), true, 0),
        Err(Error::PermissionDenied)
    );
}

#[test]
fn set_type_mismatch_error() {
    let p = Parameter::new_with_value(
        ParameterId::new(1),
        ParameterFlags::default(),
        ParameterValue::U8(123),
    );
    let mut params = Params::new();
    assert_eq!(params.add(p, 0), Ok(()));
    assert_eq!(
        params.set(p.id(), ParameterValue::Bool(false), false, 0),
        Err(Error::ParamsError(params::Error::ValueTypeMismatch))
    );
    assert_eq!(params.get_value(p.id()), Some(ParameterValue::U8(123)));
}

#[test]
fn set_updates_value() {
    let p = Parameter::new_with_value(
        ParameterId::new(1),
        ParameterFlags::default(),
        ParameterValue::U8(123),
    );
    let mut params = Params::new();
    assert_eq!(params.add(p, 0), Ok(()));
    assert_eq!(params.get(p.id()), Some(&p));
    assert_eq!(params.get_value(p.id()), Some(p.value()));
    assert_eq!(params.set(p.id(), ParameterValue::U8(2), false, 0), Ok(()));
    assert_eq!(params.get_value(p.id()), Some(ParameterValue::U8(2)));
}

#[test]
fn sorted_by_bcast_flag() {
    let mut params = Params::new();

    let mut flags = ParameterFlags::default();
    flags.set_broadcast(false);

    let mut ro_flags = ParameterFlags::default();
    ro_flags.set_read_only(true);

    let mut bcast_flags = ParameterFlags::default();
    bcast_flags.set_broadcast(true);

    let p1 = Parameter::new_with_value(ParameterId::new(1), flags, ParameterValue::U8(123));
    let p2 = Parameter::new_with_value(ParameterId::new(2), flags, ParameterValue::U8(123));
    let p3 = Parameter::new_with_value(ParameterId::new(3), ro_flags, ParameterValue::Bool(false));
    let p4 = Parameter::new_with_value(ParameterId::new(4), flags, ParameterValue::U8(123));
    let p5 = Parameter::new_with_value(ParameterId::new(5), ro_flags, ParameterValue::Bool(false));
    let p6 = Parameter::new_with_value(ParameterId::new(6), bcast_flags, ParameterValue::I32(-123));
    let p7 = Parameter::new_with_value(ParameterId::new(7), bcast_flags, ParameterValue::I32(-123));
    let p8 = Parameter::new_with_value(ParameterId::new(8), flags, ParameterValue::U8(123));

    assert_eq!(params.add(p1, 0), Ok(()));
    assert_eq!(params.add(p2, 0), Ok(()));
    assert_eq!(params.add(p3, 0), Ok(()));
    assert_eq!(params.add(p4, 0), Ok(()));
    assert_eq!(params.add(p5, 0), Ok(()));
    assert_eq!(params.get_all_broadcast(), &[]);

    assert_eq!(params.add(p6, 0), Ok(()));
    assert_eq!(params.add(p7, 0), Ok(()));
    assert_eq!(params.add(p8, 0), Ok(()));
    assert_eq!(params.len(), 8);

    // p6, p7 should be the first 2
    assert_eq!(params.as_slice()[0], p6);
    assert_eq!(params.as_slice()[1], p7);
    assert_eq!(params.get_all_broadcast(), &[p6, p7]);
    // The others keep the order they were added in.
    assert_eq!(&params.as_slice()[2..], &[p1, p2, p3, p4, p5, p8]);
}

#[test]
fn all_bcast() {
    let mut params = Params::new();

    let mut flags = ParameterFlags::default();
    flags.set_broadcast(true);
    flags.set_read_only(true);

    let p1 = Parameter::new_with_value(ParameterId::new(1), flags, ParameterValue::U8(123));
    let p2 = Parameter::new_with_value(ParameterId::new(2), flags, ParameterValue::U8(123));
    assert_eq!(params.add(p1, 0), Ok(()));
    assert_eq!(params.add(p2, 0), Ok(()));
    assert_eq!(params.len(), 2);

    assert_eq!(params.as_slice()[0], p1);
    assert_eq!(params.as_slice()[1], p2);
    assert_eq!(params.get_all_broadcast(), &[p1, p2]);
}

#[test]
fn add_and_set_stamp_the_time() {
    let mut params = Params::new();
    let p = Parameter::new_with_value(ParameterId::new(5), ParameterFlags(0), ParameterValue::I64(1));
    assert_eq!(params.add(p, 1000), Ok(()));
    assert_eq!(params.get(p.id()).unwrap().local_time_ms(), 1000);
    assert_eq!(params.set(p.id(), ParameterValue::I64(2), false, 2500), Ok(()));
    let stored = params.get(p.id()).unwrap();
    assert_eq!(stored.local_time_ms(), 2500);
    assert_eq!(stored.value(), ParameterValue::I64(2));
    // A refused set leaves the time alone.
    assert!(params.set(p.id(), ParameterValue::U8(2), false, 3000).is_err());
    assert_eq!(params.get(p.id()).unwrap().local_time_ms(), 2500);
    assert_eq!(params.get(ParameterId::new(6)), None);
    assert_eq!(params.get_value(ParameterId::new(6)), None);
}

#[test]
fn process_event_bypasses_read_only_only() {
    let mut params = Params::new();
    let ro = Parameter::new_with_value(ParameterId::new(1), ParameterFlags::new_read_only(), ParameterValue::U32(1));
    let c = Parameter::new_with_value(ParameterId::new(2), ParameterFlags(CONST), ParameterValue::U32(1));
    params.add(ro, 0).unwrap();
    params.add(c, 0).unwrap();
    assert_eq!(params.process_event(Event::new(ro.id(), ParameterValue::U32(9)), 4), Ok(()));
    assert_eq!(params.get_value(ro.id()), Some(ParameterValue::U32(9)));
    assert_eq!(
        params.process_event(Event::new(c.id(), ParameterValue::U32(9)), 4),
        Err(Error::PermissionDenied)
    );
    assert_eq!(params.get_value(c.id()), Some(ParameterValue::U32(1)));
    assert_eq!(
        params.process_event(Event::new(ParameterId::new(3), ParameterValue::U32(9)), 4),
        Err(Error::NotFound)
    );
}

#[test]
fn clock_ticks_and_wraps() {
    let mut clock = params::node::sys_clock::SysClock::new();
    assert_eq!(clock.system_millis(), 0);
    clock.increment();
    clock.increment();
    assert_eq!(clock.system_millis(), 2);
}

#[test]
fn events_apply_in_queue_order() {
    let mut params = Params::new();
    let p = Parameter::new_with_value(ParameterId::new(4), ParameterFlags::new_read_only(), ParameterValue::U8(0));
    params.add(p, 0).unwrap();
    let mut queue = EventQueue::new();
    enqueue_event(&mut queue, Event::new(p.id(), ParameterValue::U8(1))).unwrap();
    enqueue_event(&mut queue, Event::new(p.id(), ParameterValue::Bool(true))).unwrap();
    enqueue_event(&mut queue, Event::new(p.id(), ParameterValue::U8(3))).unwrap();
    assert_eq!(params.apply_next_event(&mut queue, 10), Some(Ok(())));
    assert_eq!(params.get_value(p.id()), Some(ParameterValue::U8(1)));
    assert_eq!(
        params.apply_next_event(&mut queue, 11),
        Some(Err(Error::ParamsError(params::Error::ValueTypeMismatch)))
    );
    assert_eq!(params.apply_next_event(&mut queue, 12), Some(Ok(())));
    assert_eq!(params.get_value(p.id()), Some(ParameterValue::U8(3)));
    assert_eq!(params.get(p.id()).unwrap().local_time_ms(), 12);
    assert_eq!(params.apply_next_event(&mut queue, 13), None);
}

#[test]
fn broadcast_timer_counts_down_and_reloads() {
    let mut timer = BroadcastTimer::new(3);
    assert!(!timer.tick());
    assert!(!timer.tick());
    assert!(timer.tick());
    assert!(!timer.tick());
    assert!(!timer.tick());
    assert!(timer.tick());
    timer.set_interval(0);
    assert!(timer.tick());
    assert!(timer.tick());
}
