use params::flags::{BCAST, CONST, RO};
use params::ParameterFlags as Flags;

#[test]
fn const_read_only() {
    let ro = Flags::new_read_only();
    let mut f = Flags::default();
    assert_eq!(f.0, 0);
    f.set_read_only(true);
    assert_eq!(f, ro);
}

#[test]
fn const_broadcast() {
    let bcast = Flags::new_broadcast();
    let mut f = Flags::default();
    assert_eq!(f.0, 0);
    f.set_broadcast(true);
    assert_eq!(f, bcast);
}

#[test]
fn const_read_only_broadcast() {
    let ro = Flags::new_read_only_broadcast();
    let mut f = Flags::default();
    assert_eq!(f.0, 0);
    f.set_read_only(true);
    f.set_broadcast(true);
    assert_eq!(f, ro);
}

#[test]
fn flag_bits_and_predicates() {
    assert_eq!(RO, 1);
    assert_eq!(BCAST, 2);
    assert_eq!(CONST, 4);
    let mut f = Flags::new_from_flags(RO | CONST);
    assert!(f.read_only());
    assert!(!f.broadcast());
    assert!(f.constant());
    f.set_read_only(false);
    f.set_constant(false);
    assert_eq!(f, Flags::new());
    assert_eq!(f.wire_size(), 4);
    assert_eq!(Flags::from(6u32), Flags(BCAST | CONST));
}
