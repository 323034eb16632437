use pojde_rs::error::Error;
use pojde_rs::naming::{from_runtime_name, is_valid_prefix, to_runtime_name, INSTANCE_PREFIX};

#[test]
fn runtime_name_carries_the_prefix() {
    assert_eq!(to_runtime_name(INSTANCE_PREFIX, "web"), "pojde-web");
}

#[test]
fn listed_name_reads_back() {
    assert_eq!(from_runtime_name("pojde-", "/pojde-web"), Ok("web".to_string()));
}

#[test]
fn name_round_trips() {
    for name in ["web", "", "a/b", "/x", "pojde-", "日本語"] {
        let runtime_name = to_runtime_name("pojde-", name);
        assert_eq!(from_runtime_name("pojde-", &runtime_name), Ok(name.to_string()));
    }
}

#[test]
fn foreign_container_is_no_instance() {
    assert_eq!(from_runtime_name("pojde-", "/postgres"), Err(Error::NotAnInstance));
    assert_eq!(from_runtime_name("pojde-", "/my-pojde-web"), Err(Error::NotAnInstance));
    assert_eq!(from_runtime_name("pojde-", "/pojde"), Err(Error::NotAnInstance));
    assert_eq!(from_runtime_name("pojde-", ""), Err(Error::NotAnInstance));
    assert_eq!(from_runtime_name("pojde-", "//pojde-web"), Err(Error::NotAnInstance));
}

#[test]
fn prefix_must_be_there_and_hold_no_slash() {
    assert!(is_valid_prefix("pojde-"));
    assert!(!is_valid_prefix(""));
    assert!(!is_valid_prefix("po/jde-"));
    assert!(!is_valid_prefix("/pojde-"));
}
