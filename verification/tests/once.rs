use mitochondria::OnceCell;
use mitochondria::Routine;

fn assert_send<T: Send>() {}

#[test]
fn once_smoketest() {
    let mut x = OnceCell::new();
    assert_eq!(x.as_ref(), None);
    assert_eq!(x.init_once(|| "ribosome"), &"ribosome");
    assert_eq!(x.as_ref(), Some(&"ribosome"));
    assert_eq!(x.init_once(|| "nucleolus"), &"ribosome");
    assert_eq!(x.as_ref(), Some(&"ribosome"));
    assert_eq!(x.try_init_once::<(), _>(|| Ok("nucleolus")), Ok(&"ribosome"));
    assert_eq!(x.as_ref(), Some(&"ribosome"));

    let mut y = OnceCell::new();
    assert_eq!(y.try_init_once(|| Err(())), Err(()));
    assert_eq!(y.try_init_once::<(), _>(|| Ok("ribosome")), Ok(&"ribosome"));
    assert_eq!(y.as_ref(), Some(&"ribosome"));
    assert_eq!(y.try_init_once::<(), _>(|| Ok("nucleolus")), Ok(&"ribosome"));
    assert_eq!(y.as_ref(), Some(&"ribosome"));
    assert_eq!(y.init_once(|| "nucleolus"), &"ribosome");
    assert_eq!(y.as_ref(), Some(&"ribosome"));

    let z = OnceCell::new_with_value("ribosome");
    assert_eq!(z.as_ref(), Some(&"ribosome"));
}

#[test]
fn clone() {
    let mut x = OnceCell::new();
    assert_eq!(x.clone().as_ref(), None);
    x.init_once(|| "ribosome");
    assert_eq!(x.clone().as_ref(), Some(&"ribosome"));
}

#[test]
fn debug() {
    let mut x = OnceCell::new();
    assert_eq!(format!("{:?}", x), "OnceCell(None)");
    x.init_once(|| "ribosome");
    assert_eq!(format!("{:?}", x), "OnceCell(Some(\"ribosome\"))");
}

#[test]
fn once_default() {
    let x = OnceCell::<usize>::default();
    assert_eq!(x.as_ref(), None);
}

#[test]
fn once_from() {
    let x = OnceCell::from("ribosome");
    assert_eq!(x.as_ref(), Some(&"ribosome"));
}

#[test]
fn once_send() {
    assert_send::<OnceCell<usize>>();
}

#[test]
fn first_successful_initialization_wins() {
    let mut c = OnceCell::new();
    assert_eq!(c.init_once(|| "a"), &"a");
    assert_eq!(c.init_once(|| "b"), &"a");
    assert_eq!(c.as_ref(), Some(&"a"));
}

#[test]
fn initializer_not_called_when_present() {
    let mut calls = 0;
    let mut c = OnceCell::new();
    assert_eq!(
        c.init_once(|| {
            calls += 1;
            "first"
        }),
        &"first"
    );
    assert_eq!(
        c.init_once(|| {
            calls += 1;
            "second"
        }),
        &"first"
    );
    assert_eq!(
        c.try_init_once::<(), _>(|| {
            calls += 1;
            Ok("third")
        }),
        Ok(&"first")
    );
    assert_eq!(calls, 1);
}

#[test]
fn reentrant_inner_value_wins() {
    let mut c = OnceCell::new();
    let routine = Routine::Reenter(
        Box::new(Routine::Finish(Ok("inner"))),
        Box::new(Routine::Finish(Ok("outer"))),
    );
    assert_eq!(c.init_once_with::<()>(routine), &"inner");
    assert_eq!(c.as_ref(), Some(&"inner"));
}

#[test]
fn deepest_successful_attempt_wins() {
    let mut c = OnceCell::new();
    let routine = Routine::Reenter(
        Box::new(Routine::Reenter(
            Box::new(Routine::Finish(Ok("deepest"))),
            Box::new(Routine::Finish(Ok("middle"))),
        )),
        Box::new(Routine::Finish(Ok("outer"))),
    );
    assert_eq!(c.init_once_with::<()>(routine), &"deepest");
    assert_eq!(c.as_ref(), Some(&"deepest"));
}

#[test]
fn outer_error_overridden_by_reentrant_success() {
    let mut c = OnceCell::new();
    let routine = Routine::Reenter(
        Box::new(Routine::Finish(Ok("inner"))),
        Box::new(Routine::Finish(Err(()))),
    );
    assert_eq!(c.try_init_once_with(routine), Ok(&"inner"));
    assert_eq!(c.as_ref(), Some(&"inner"));
}

#[test]
fn error_leaves_cell_absent_and_retryable() {
    let mut c = OnceCell::<&str>::new();
    let routine = Routine::Reenter(
        Box::new(Routine::Finish(Err(()))),
        Box::new(Routine::Finish(Err(()))),
    );
    assert_eq!(c.try_init_once_with(routine), Err(()));
    assert_eq!(c.as_ref(), None);
    assert_eq!(c.try_init_once_with(Routine::Finish(Ok::<_, ()>("retried"))), Ok(&"retried"));
    assert_eq!(c.as_ref(), Some(&"retried"));
}

#[test]
fn as_mut_changes_present_value() {
    let mut c = OnceCell::new();
    assert!(c.as_mut().is_none());
    c.init_once(|| String::from("Nucleo"));
    c.as_mut().unwrap().push_str("lus!");
    assert_eq!(c.as_ref().unwrap(), "Nucleolus!");
}
