use simplehttpserver::invalid_port_message;
use simplehttpserver::parse_port;
use simplehttpserver::port_from_args;

#[test]
fn no_argument_means_the_default_port() {
    assert_eq!(port_from_args(None), Some(8000));
}

#[test]
fn numeric_arguments_parse_exactly() {
    assert_eq!(parse_port("8080"), Some(8080));
    assert_eq!(parse_port("0"), Some(0));
    assert_eq!(parse_port("65535"), Some(65535));
    assert_eq!(parse_port("00080"), Some(80));
    assert_eq!(port_from_args(Some("3000")), Some(3000));
}

#[test]
fn non_numeric_arguments_are_rejected() {
    assert_eq!(parse_port("abc"), None);
    assert_eq!(parse_port(""), None);
    assert_eq!(parse_port("12a"), None);
    assert_eq!(parse_port("-1"), None);
    assert_eq!(parse_port("80 "), None);
    assert_eq!(port_from_args(Some("abc")), None);
}

#[test]
fn out_of_range_arguments_are_rejected() {
    assert_eq!(parse_port("65536"), None);
    assert_eq!(parse_port("99999999999999999999"), None);
}

#[test]
fn the_error_message_names_the_bad_value() {
    assert_eq!(invalid_port_message("abc"), "Invalid port: abc");
}
