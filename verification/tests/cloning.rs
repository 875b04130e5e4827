use mitochondria::CloningCell;
use std::rc::Rc;

#[test]
fn copy_and_cell_are_independent() {
    let c = CloningCell::new(String::from("Hello cytosol!"));
    let mut copy = c.get();
    copy.push_str(" Goodbye!");
    assert_eq!(c.get(), "Hello cytosol!");
    assert_eq!(copy, "Hello cytosol! Goodbye!");
}

#[test]
fn cell_mutation_leaves_copy_unchanged() {
    let mut c = CloningCell::new(String::from("soma"));
    let copy = c.get();
    c.set(String::from("axon"));
    assert_eq!(copy, "soma");
    assert_eq!(c.get(), "axon");
}

#[test]
fn set_replaces_contents() {
    let mut c = CloningCell::new(String::from("Hello vacuole!"));
    c.set(String::from("Hello cytoskeleton!"));
    assert_eq!(c.get(), "Hello cytoskeleton!");
}

#[test]
fn capability_closed_under_wrappers() {
    let boxed = CloningCell::new(Some(Box::new(String::from("granum"))));
    assert_eq!(boxed.get(), Some(Box::new(String::from("granum"))));

    let nested = CloningCell::new(Some(Box::new(Some(Box::new(String::from("thylakoid"))))));
    assert_eq!(nested.get(), Some(Box::new(Some(Box::new(String::from("thylakoid"))))));

    let empty = CloningCell::new(None::<Box<String>>);
    assert_eq!(empty.get(), None);

    let handle = CloningCell::new(Some(Box::new(Rc::new(String::from("stroma")))));
    assert_eq!(handle.get().map(|h| (*h).to_string()), Some(String::from("stroma")));
}

#[test]
fn rc_copy_is_a_new_handle_to_the_same_value() {
    let c = CloningCell::new(Rc::new(5u32));
    let copy = c.get();
    assert_eq!(*copy, 5);
    assert_eq!(Rc::strong_count(&copy), 2);
}
