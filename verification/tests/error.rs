use core::fmt::Debug;

use doctor::error::Error;

fn assert_debug_eq<T: Debug + Eq>() {}

#[test]
fn test_implement_error() {
    assert_debug_eq::<Error>();
    let e = Error::ParseError("something went wrong".to_owned());
    assert_eq!(e.message(), "something went wrong");
    assert_eq!(e, Error::ParseError("something went wrong".to_owned()));
}
