use im_switch::unsupported::{get_input_method, list_input_methods, set_input_method};
use im_switch::ImSwitchError;

#[test]
fn every_operation_is_unsupported() {
    assert!(matches!(get_input_method(), Err(ImSwitchError::UnsupportedPlatform)));
    assert!(matches!(set_input_method("x"), Err(ImSwitchError::UnsupportedPlatform)));
    assert!(matches!(list_input_methods(), Err(ImSwitchError::UnsupportedPlatform)));
}
