use kern::Fail;

#[test]
fn error_fail() {
    // create new Fail from string
    let other_err = Fail::new("Das ist ein Fehler");
    let err_1 = Fail::new(other_err);
    let err_2: Result<(), Box<Fail>> = Fail::from("Das ist auch ein Fehler");

    // check if error message is correct
    assert_eq!(err_1.to_string(), "Das ist ein Fehler");
    assert_eq!(err_2.unwrap_err().to_string(), "Das ist auch ein Fehler");
}

#[test]
fn fail_from_string_and_fail() {
    let owned = String::from("kaputt");
    let a = Fail::new(owned);
    assert_eq!(a.err_msg(), "kaputt");
    let b: Result<u8, Fail> = Fail::std_result(Fail("x".to_string()));
    assert_eq!(b.unwrap_err(), Fail("x".to_string()));
}
