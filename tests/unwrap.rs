use maidsafe_utilities::unwrap::{unwrap_option, unwrap_result};

#[test]
fn unwrap_good_result() {
    let result: Result<u8, ()> = Ok(1);
    assert_eq!(unwrap_result(result), 1);
}

#[test]
fn unwrap_good_option() {
    let option = Some(1);
    assert_eq!(unwrap_option(option, "Error text."), 1);
}

#[test]
fn unwrap_result_hands_back_owned_value() {
    let result: Result<String, u32> = Ok("Hello".to_string());
    assert_eq!(unwrap_result(result).len(), 5);
}
