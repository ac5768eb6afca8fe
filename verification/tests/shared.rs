//! The shared helpers.

#[test]
fn it_works() {
    let result = rwc::shared::add(2, 2);
    assert_eq!(result, 4);
}
