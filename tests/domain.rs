use ipdater::address::address_from_response;
use ipdater::config::Config;
use ipdater::domain::get_root_domain;
use ipdater::error::ReconcileError;

#[test]
fn root_of_deep_name() {
    assert_eq!(get_root_domain("foo.bar.example.com"), Ok("example.com".to_string()));
}

#[test]
fn root_of_root_is_itself() {
    assert_eq!(get_root_domain("example.com"), Ok("example.com".to_string()));
}

#[test]
fn root_of_subdomain() {
    assert_eq!(get_root_domain("sub.example.com"), Ok("example.com".to_string()));
}

#[test]
fn root_keeps_case_and_empty_labels() {
    assert_eq!(get_root_domain("A.Example.COM"), Ok("Example.COM".to_string()));
    assert_eq!(get_root_domain(".com"), Ok(".com".to_string()));
    assert_eq!(get_root_domain("example.com."), Ok("com.".to_string()));
}

#[test]
fn root_of_single_label_fails() {
    assert_eq!(get_root_domain("com"), Err(ReconcileError::InvalidDomain));
}

#[test]
fn root_of_empty_fails() {
    assert_eq!(get_root_domain(""), Err(ReconcileError::InvalidDomain));
}

#[test]
fn address_loses_trailing_newline() {
    assert_eq!(address_from_response("1.2.3.4\n"), "1.2.3.4");
    assert_eq!(address_from_response("1.2.3.4"), "1.2.3.4");
    assert_eq!(address_from_response("\n1.2.\n3.4\n\n"), "1.2.3.4");
    assert_eq!(address_from_response(""), "");
}

#[test]
fn example_config() {
    let c = Config::example();
    assert_eq!(c.zones.len(), 1);
    assert_eq!(c.zones[0].credentials.key, "my_example_key");
    assert_eq!(c.zones[0].domains, vec!["example.com".to_string(), "foo.example.com".to_string()]);
    assert_eq!(c.ipserver, "https://api.ipify.org");
}
