use pojde_rs::error::Error;

#[test]
fn messages_name_what_failed() {
    assert_eq!(
        Error::RuntimeUnavailable("no socket".to_string()).message(),
        "container runtime unavailable: no socket"
    );
    assert_eq!(
        Error::RuntimeRequestFailed("bad".to_string()).message(),
        "container runtime request failed: bad"
    );
    assert_eq!(Error::NotAnInstance.message(), "container is not an instance");
    assert_eq!(Error::InstanceNotFound("web".to_string()).message(), "instance not found: web");
    assert_eq!(
        Error::OperationFailed("web".to_string(), "busy".to_string()).message(),
        "operation failed for web: busy"
    );
    assert_eq!(Error::InstanceNotRunning.message(), "instance is not running");
    assert_eq!(
        Error::PortNotPublished.message(),
        "instance does not publish its service port"
    );
    assert_eq!(Error::EncodingError.message(), "output is not valid UTF-8");
    assert_eq!(Error::TunnelError("reset".to_string()).message(), "tunnel failed: reset");
    assert_eq!(Error::ProtocolViolation.message(), "runtime sent input on an output stream");
}

#[test]
fn error_clone_is_equal() {
    for error in [
        Error::RuntimeUnavailable("a".to_string()),
        Error::RuntimeRequestFailed("b".to_string()),
        Error::NotAnInstance,
        Error::InstanceNotFound("c".to_string()),
        Error::OperationFailed("d".to_string(), "e".to_string()),
        Error::InstanceNotRunning,
        Error::PortNotPublished,
        Error::EncodingError,
        Error::TunnelError("f".to_string()),
        Error::ProtocolViolation,
    ] {
        assert_eq!(error.clone(), error);
    }
}
