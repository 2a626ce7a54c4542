use chainsync::condvar::CondVar;

#[test]
fn condvar_test() {
    let mut cv = CondVar::new();

    // A task starts waiting: its first poll registers it and pends.
    let w = cv.wait();
    assert!(!w.poll(&mut cv));

    // notify() reports that the registered task must be woken.
    assert!(cv.notify());

    // Woken, the task polls again and is ready.
    assert!(w.poll(&mut cv));
}

#[test]
fn condvar_reset() {
    let mut cv = CondVar::new();

    let w = cv.wait();
    assert!(!w.poll(&mut cv));

    // #1 send signal
    assert!(cv.notify());
    // Multiple calls to notify do nothing until we call reset()
    assert!(!cv.notify());
    assert!(w.poll(&mut cv));

    // Without calling reset(), a new wait() returns instantly.
    let w2 = cv.wait();
    assert!(w2.poll(&mut cv));

    cv.reset();

    let w3 = cv.wait();
    assert!(!w3.poll(&mut cv));

    // #2 send signal again
    assert!(cv.notify());
    assert!(w3.poll(&mut cv));
}

#[test]
fn condvar_default_is_fresh() {
    let mut cv = CondVar::default();
    let w = cv.wait();
    assert!(!w.poll(&mut cv));
    // A notification sent before the first wait is caught by it.
    let mut early = CondVar::new();
    assert!(!early.notify());
    let w2 = early.wait();
    assert!(w2.poll(&mut early));
}
