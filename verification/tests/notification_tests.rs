use zellij_server::notification::notification_from_osc;

fn parsed(body: &str) -> Option<(Vec<u8>, Vec<u8>)> {
    notification_from_osc(&body.as_bytes().to_vec()).map(|n| (n.title, n.body))
}

#[test]
fn iterm_notifications_carry_their_text() {
    assert_eq!(parsed("9;Build finished"), Some((vec![], b"Build finished".to_vec())));
    assert_eq!(parsed("9;4;1;50"), None);
}

#[test]
fn kitty_notifications_skip_control_traffic() {
    assert_eq!(parsed("99;;Build finished"), Some((vec![], b"Build finished".to_vec())));
    assert_eq!(parsed("99;i=build; finished"), Some((vec![], b" finished".to_vec())));
    assert_eq!(parsed("99;i=build:p=?;"), None);
    assert_eq!(parsed("99;i=build:p=alive;"), None);
    assert_eq!(parsed("99;i=build:p=close;"), None);
    assert_eq!(parsed("99;i=build:d=0;Build"), None);
    assert_eq!(parsed("99;i=build:d=1;Build"), Some((vec![], b"Build".to_vec())));
    assert_eq!(parsed("99;no end of metadata"), None);
}

#[test]
fn rxvt_notifications_have_a_title_and_a_body() {
    assert_eq!(parsed("777;notify;Build;Finished"), Some((b"Build".to_vec(), b"Finished".to_vec())));
    assert_eq!(parsed("777;notify;Only title"), Some((b"Only title".to_vec(), vec![])));
    assert_eq!(parsed("777;other;x"), None);
}

#[test]
fn other_commands_ask_for_nothing() {
    assert_eq!(parsed("0;window title"), None);
    assert_eq!(parsed(""), None);
}
