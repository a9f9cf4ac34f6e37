use dyn_eq::{compare_peer, handles_eq, DynEq};

#[derive(Debug, PartialEq, Eq)]
struct A {
    value: u32,
}

#[derive(Debug, PartialEq, Eq)]
struct B {
    value: u32,
}

#[test]
fn erased_value_compares_equal_to_itself() {
    let x = A { value: 5 };
    assert!(x.dyn_eq(x.as_any()));
    let n: u8 = 200;
    assert!(n.dyn_eq(n.as_any()));
}

#[test]
fn erased_value_read_at_its_own_type_keeps_its_value() {
    let x = A { value: 5 };
    let y = A { value: 10 };
    assert!(!x.dyn_eq(y.as_any()));
    assert!(x.dyn_eq(A { value: 5 }.as_any()));
}

#[test]
fn erased_value_of_another_type_is_rejected() {
    let x = A { value: 5 };
    let y = B { value: 5 };
    assert!(!x.dyn_eq(y.as_any()));
    assert!(!y.dyn_eq(x.as_any()));
    let small: u8 = 5;
    let wide: u16 = 5;
    assert!(!small.dyn_eq(wide.as_any()));
}

#[test]
fn comparison_is_symmetric_within_a_type() {
    let pairs = [(1u32, 1u32), (1, 2), (7, 7), (9, 3)];
    for (p, q) in pairs {
        let x = A { value: p };
        let y = A { value: q };
        assert_eq!(x.dyn_eq(y.as_any()), y.dyn_eq(x.as_any()));
        assert_eq!(x.dyn_eq(y.as_any()), x == y);
    }
}

#[test]
fn comparison_is_transitive_within_a_type() {
    let x = B { value: 4 };
    let y = B { value: 4 };
    let z = B { value: 4 };
    assert!(x.dyn_eq(y.as_any()));
    assert!(y.dyn_eq(z.as_any()));
    assert!(x.dyn_eq(z.as_any()));
}

#[test]
fn type_dominates_value() {
    let a5 = A { value: 5 };
    let b5 = B { value: 5 };
    let b10 = B { value: 10 };
    assert!(!a5.dyn_eq(b5.as_any()));
    assert!(!a5.dyn_eq(b10.as_any()));
}

#[test]
fn compare_peer_on_present_and_absent_peer() {
    let x = A { value: 5 };
    assert!(compare_peer(&x, Some(&A { value: 5 })));
    assert!(!compare_peer(&x, Some(&A { value: 6 })));
    assert!(!compare_peer(&x, None));
    assert!(!compare_peer(&3u64, None));
    assert!(compare_peer(&3u64, Some(&3u64)));
}

#[test]
fn handles_eq_on_erased_handles() {
    let a1: &dyn DynEq = &A { value: 5 };
    let a2: &dyn DynEq = &A { value: 5 };
    let a3: &dyn DynEq = &A { value: 6 };
    let b1: &dyn DynEq = &B { value: 5 };
    assert!(handles_eq(a1, a2));
    assert!(handles_eq(a1, a1));
    assert!(!handles_eq(a1, a3));
    assert!(!handles_eq(a1, b1));
    assert!(!handles_eq(b1, a1));
}
