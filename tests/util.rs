use last_stander::predicate::{Predicate, PredicateContainer};

#[test]
fn clone_boxed() {
    let c = |t: &bool| *t;
    let _ = c.clone_boxed();
}

#[test]
fn clone() {
    let c = |t: &bool| *t;
    let _ = c.clone();
}

#[test]
fn clone_box() {
    let c = |t: &bool| *t;
    let _ = Box::new(c).clone();
}

#[test]
fn clone_cont_dyn() {
    let c = |t: &bool| *t;
    let _ = PredicateContainer::new(c).clone();
}

#[test]
fn container_applies_its_function() {
    let c = |t: &u32| *t > 3;
    let p = PredicateContainer::new(c);
    let q = p.clone();
    assert!(p.apply(&4));
    assert!(!q.apply(&3));
}
