use mitochondria::MoveCell;

fn assert_send<T: Send>() {}

#[test]
fn move_smoketest() {
    let mut x = MoveCell::new("ribosome");
    assert_eq!(x.replace("nucleolus"), "ribosome");
    assert_eq!(x.into_inner(), "nucleolus");
}

#[test]
fn as_mut() {
    let mut x = MoveCell::new("ribosome");
    *x.as_mut() = "nucleolus";
    assert_eq!(x.into_inner(), "nucleolus");
}

#[test]
fn move_default() {
    let x = MoveCell::<usize>::default();
    assert_eq!(x.into_inner(), 0);
}

#[test]
fn move_from() {
    let x = MoveCell::from("ribosome");
    assert_eq!(x.into_inner(), "ribosome");
}

#[test]
fn move_send() {
    assert_send::<MoveCell<usize>>();
}

#[test]
fn set_drops_previous_value() {
    let mut x = MoveCell::new(String::from("axon"));
    x.set(String::from("dendrite"));
    assert_eq!(x.into_inner(), "dendrite");
}

#[test]
fn take_leaves_default_value() {
    let mut x = MoveCell::new(7usize);
    assert_eq!(x.take(), 7);
    assert_eq!(x.into_inner(), 0);
}

#[test]
fn replace_returns_previous_value_each_time() {
    let mut x = MoveCell::new(1u32);
    assert_eq!(x.replace(2), 1);
    assert_eq!(x.replace(3), 2);
    assert_eq!(x.replace(4), 3);
    assert_eq!(x.into_inner(), 4);
}
