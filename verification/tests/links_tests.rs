use kclock::links::{check_url_scheme, launch_command, open_url, Platform};

#[test]
fn only_https_links_pass() {
    assert!(check_url_scheme("https://github.com/example/releases").is_ok());
    assert_eq!(check_url_scheme("http://example.com"), Err("invalid_scheme".to_string()));
    assert_eq!(check_url_scheme("file:///C:/Windows"), Err("invalid_scheme".to_string()));
    assert_eq!(check_url_scheme("HTTPS://example.com"), Err("invalid_scheme".to_string()));
    assert_eq!(check_url_scheme(""), Err("invalid_scheme".to_string()));
}

#[test]
fn windows_hands_the_link_to_the_url_protocol_handler() {
    let c = launch_command(Platform::Windows, "https://a.b");
    assert_eq!(c.program, "rundll32");
    assert_eq!(c.args, vec!["url.dll,FileProtocolHandler", "https://a.b"]);
}

#[test]
fn an_ampersand_stays_inside_the_one_link_argument() {
    let c = launch_command(Platform::Windows, "https://example.com/?a=1&b=2");
    assert_ne!(c.program, "cmd");
    assert_eq!(c.args, vec!["url.dll,FileProtocolHandler", "https://example.com/?a=1&b=2"]);
}

#[test]
fn macos_and_other_desktops_have_openers() {
    let c = launch_command(Platform::MacOs, "https://a.b");
    assert_eq!(c.program, "open");
    assert_eq!(c.args, vec!["https://a.b"]);
    let c = launch_command(Platform::Other, "https://a.b");
    assert_eq!(c.program, "xdg-open");
    assert_eq!(c.args, vec!["https://a.b"]);
}

#[test]
fn open_url_checks_before_launching() {
    match open_url("javascript:alert(1)", Platform::Windows) {
        Err(e) => assert_eq!(e, "invalid_scheme"),
        Ok(_) => panic!("accepted a non-https link"),
    }
    match open_url("https://x.y", Platform::Windows) {
        Ok(c) => assert_eq!(c.args[1], "https://x.y"),
        Err(_) => panic!("refused an https link"),
    }
    match open_url("https://x.y", Platform::Other) {
        Ok(c) => assert_eq!(c.program, "xdg-open"),
        Err(_) => panic!("refused an https link"),
    }
}
