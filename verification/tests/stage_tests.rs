use loader::stage::RunWindow;
use loader::LoaderError;

#[test]
fn staging_copies_content_verbatim() {
    let mut w = RunWindow::new(16);
    assert_eq!(w.capacity(), 16);
    w.stage(b"app-one").unwrap();
    assert_eq!(w.resident().as_slice(), b"app-one");
}

#[test]
fn staging_overwrites_the_prior_resident_app() {
    let mut w = RunWindow::new(16);
    w.stage(b"first").unwrap();
    w.stage(b"second app").unwrap();
    assert_eq!(w.resident().as_slice(), b"second app");
}

#[test]
fn oversized_content_is_rejected_before_any_copy() {
    let mut w = RunWindow::new(4);
    w.stage(b"okay").unwrap();
    let r = w.stage(b"too big");
    assert_eq!(r.unwrap_err(), LoaderError::OutOfBounds);
    // nothing of the oversized app reached the window
    assert_eq!(w.resident().as_slice(), b"okay");
}

#[test]
fn empty_app_stages() {
    let mut w = RunWindow::new(0);
    w.stage(b"").unwrap();
    assert_eq!(w.resident().len(), 0);
}
