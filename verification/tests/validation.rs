use rustatio::validation::{
    check_torrent_path, validate_percentage, validate_port, validate_rate,
    validate_torrent_path, validate_update_interval, ValidationError,
};

fn micro(x: f64) -> i64 {
    (x * 1e6).round() as i64
}

fn display(err: &ValidationError) -> String {
    err.message()
}

#[test]
fn validation_test_validate_rate() {
    // Valid rates
    assert!(validate_rate(micro(50.0), "upload_rate").is_ok());
    assert!(validate_rate(micro(0.0), "upload_rate").is_ok());
    assert!(validate_rate(micro(1000.0), "upload_rate").is_ok());
    assert!(validate_rate(micro(1_000_000.0), "upload_rate").is_ok()); // Max rate

    // Invalid rates
    assert!(validate_rate(micro(-1.0), "upload_rate").is_err());
    assert!(validate_rate(micro(-0.1), "upload_rate").is_err());
    assert!(validate_rate(micro(1_000_001.0), "upload_rate").is_err());
    assert!(validate_rate(micro(2_000_000.0), "upload_rate").is_err());

    // Edge cases
    assert!(validate_rate(micro(f64::EPSILON), "upload_rate").is_ok());
    assert!(validate_rate(micro(999_999.999), "upload_rate").is_ok());
}

#[test]
fn test_validate_port() {
    // Valid ports
    assert!(validate_port(6881).is_ok());
    assert!(validate_port(1024).is_ok()); // Min valid port
    assert!(validate_port(8080).is_ok());
    assert!(validate_port(65535).is_ok()); // Max valid port

    // Invalid ports (privileged)
    assert!(validate_port(0).is_err());
    assert!(validate_port(1).is_err());
    assert!(validate_port(80).is_err());
    assert!(validate_port(443).is_err());
    assert!(validate_port(1023).is_err());
}

#[test]
fn validation_test_validate_port() {
    assert!(validate_port(6881).is_ok());
    assert!(validate_port(65535).is_ok()); // Max valid port
    assert!(validate_port(1023).is_err()); // Below 1024
    assert!(validate_port(1024).is_ok()); // Min valid port
}

#[test]
fn validation_test_validate_percentage() {
    // Valid percentages
    assert!(validate_percentage(micro(0.0), "completion").is_ok());
    assert!(validate_percentage(micro(50.0), "completion").is_ok());
    assert!(validate_percentage(micro(99.9), "completion").is_ok());
    assert!(validate_percentage(micro(100.0), "completion").is_ok());

    // Invalid percentages
    assert!(validate_percentage(micro(-1.0), "completion").is_err());
    assert!(validate_percentage(micro(-0.1), "completion").is_err());
    assert!(validate_percentage(micro(100.1), "completion").is_err());
    assert!(validate_percentage(micro(101.0), "completion").is_err());
    assert!(validate_percentage(micro(1000.0), "completion").is_err());

    // Edge cases
    assert!(validate_percentage(micro(0.0001), "completion").is_ok());
    assert!(validate_percentage(micro(99.9999), "completion").is_ok());
}

#[test]
fn test_validate_update_interval() {
    // Valid intervals
    assert!(validate_update_interval(1).is_ok()); // Min
    assert!(validate_update_interval(30).is_ok());
    assert!(validate_update_interval(60).is_ok());
    assert!(validate_update_interval(300).is_ok());
    assert!(validate_update_interval(3600).is_ok()); // Max

    // Invalid intervals
    assert!(validate_update_interval(0).is_err());
    assert!(validate_update_interval(3601).is_err());
    assert!(validate_update_interval(10000).is_err());
}

#[test]
fn test_validate_torrent_path_nonexistent() {
    let result = validate_torrent_path("/nonexistent/file.torrent", false, false);
    assert!(matches!(result, Err(ValidationError::InvalidPath(_))));

    if let Err(ValidationError::InvalidPath(msg)) = result {
        assert!(msg.contains("does not exist"));
    }
}

#[test]
fn test_validate_torrent_path_wrong_extension() {
    let result = validate_torrent_path("/tmp/test_file.txt", true, true);
    assert!(matches!(result, Err(ValidationError::InvalidFileExtension(_))));

    if let Err(ValidationError::InvalidFileExtension(ext)) = result {
        assert_eq!(ext, "txt");
    }
}

#[test]
fn test_validate_torrent_path_no_extension() {
    let result = validate_torrent_path("/tmp/test_file", true, true);
    assert!(matches!(result, Err(ValidationError::InvalidFileExtension(_))));

    if let Err(ValidationError::InvalidFileExtension(ext)) = result {
        assert_eq!(ext, "no extension");
    }
}

#[test]
fn test_validate_torrent_path_valid() {
    let result = validate_torrent_path("/tmp/test.torrent", true, true);
    assert!(result.is_ok());
    assert_eq!(result.unwrap(), "/tmp/test.torrent");
}

#[test]
fn test_validate_torrent_path_directory() {
    let result = validate_torrent_path("/tmp", true, false);
    assert!(matches!(result, Err(ValidationError::InvalidPath(_))));

    if let Err(ValidationError::InvalidPath(msg)) = result {
        assert!(msg.contains("not a file"));
    }
}

#[test]
fn test_validation_error_display() {
    let err = ValidationError::InvalidPath("test".to_string());
    assert_eq!(format!("{}", display(&err)), "Invalid path: test");

    let err = ValidationError::InvalidFileExtension("txt".to_string());
    assert_eq!(
        format!("{}", display(&err)),
        "Invalid file extension. Expected .torrent, got: txt"
    );

    let err = ValidationError::InvalidRange {
        field: "rate".to_string(),
        min: micro(0.0),
        max: micro(100.0),
        value: micro(150.0),
    };
    assert_eq!(format!("{}", display(&err)), "rate must be between 0 and 100, got: 150");

    let err = ValidationError::InvalidPort(80);
    assert_eq!(
        format!("{}", display(&err)),
        "Invalid port number: 80. Must be between 1024 and 65535"
    );

    let err = ValidationError::MissingField("torrent".to_string());
    assert_eq!(format!("{}", display(&err)), "Missing required field: torrent");
}

#[test]
fn range_errors_carry_field_bounds_and_value() {
    match validate_rate(-1, "upload_rate") {
        Err(ValidationError::InvalidRange { field, min, max, value }) => {
            assert_eq!(field, "upload_rate");
            assert_eq!(min, 0);
            assert_eq!(max, 1_000_000_000_000);
            assert_eq!(value, -1);
        }
        _ => panic!("expected InvalidRange"),
    }
    assert_eq!(validate_rate(1_000_000_000_000, "r").unwrap(), 1_000_000_000_000);
    assert!(validate_rate(1_000_000_000_001, "r").is_err());
    assert_eq!(validate_percentage(100_000_000, "p").unwrap(), 100_000_000);
    assert!(validate_percentage(100_000_001, "p").is_err());
    match validate_update_interval(3601) {
        Err(e) => assert_eq!(
            e.message(),
            "update_interval must be between 1 and 3600, got: 3601"
        ),
        Ok(_) => panic!("expected InvalidRange"),
    }
    match validate_update_interval(u64::MAX) {
        Err(ValidationError::InvalidRange { value, .. }) => assert_eq!(value, i64::MAX),
        _ => panic!("expected InvalidRange"),
    }
    assert!(matches!(validate_port(80), Err(ValidationError::InvalidPort(80))));
    assert_eq!(validate_port(1024).unwrap(), 1024);
}

#[test]
fn fractions_are_written_without_trailing_zeros() {
    let text = |value: i64| {
        ValidationError::InvalidRange { field: "f".to_string(), min: 0, max: 0, value }.message()
    };
    assert_eq!(text(500_000), "f must be between 0 and 0, got: 0.5");
    assert_eq!(text(-1_250_000), "f must be between 0 and 0, got: -1.25");
    assert_eq!(text(1), "f must be between 0 and 0, got: 0.000001");
    assert_eq!(text(10_000_010), "f must be between 0 and 0, got: 10.00001");
    assert_eq!(text(-100_000), "f must be between 0 and 0, got: -0.1");
    assert_eq!(text(i64::MIN), "f must be between 0 and 0, got: -9223372036854.775808");
    assert_eq!(text(i64::MAX), "f must be between 0 and 0, got: 9223372036854.775807");
}

#[test]
fn path_check_takes_the_extension_it_is_given() {
    assert_eq!(
        check_torrent_path("a.b", Some("torrent".to_string()), true, true).unwrap(),
        "a.b"
    );
    assert!(matches!(
        check_torrent_path("x.torrent", None, true, true),
        Err(ValidationError::InvalidFileExtension(_))
    ));
    assert!(matches!(
        validate_torrent_path("dir.torrent/.hidden", true, true),
        Err(ValidationError::InvalidFileExtension(_))
    ));
    assert!(matches!(
        validate_torrent_path("x.TORRENT", true, true),
        Err(ValidationError::InvalidFileExtension(_))
    ));
}
