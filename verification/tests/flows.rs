use cloudencryptor::cli::{help_lines, parse_command, Command};
use cloudencryptor::drive::{auth_callback, login_step, AuthReply, Drive, LoginAction, LoginEvent, TokenPair};
use cloudencryptor::key::derive_key;

#[test]
fn commands_are_parsed_after_trimming() {
    assert_eq!(parse_command("u\n"), Command::Upload);
    assert_eq!(parse_command(" d "), Command::Download);
    assert_eq!(parse_command("q"), Command::Quit);
    assert_eq!(parse_command("l\r\n"), Command::Login);
    assert_eq!(parse_command("help\n"), Command::Help);
    assert_eq!(parse_command("h"), Command::Help);
    assert_eq!(parse_command("f\n"), Command::ListFiles);
    assert_eq!(parse_command("x\n"), Command::Unknown);
    assert_eq!(parse_command("\n"), Command::Unknown);
    assert_eq!(parse_command("U"), Command::Unknown);
}

#[test]
fn help_menu() {
    assert_eq!(
        help_lines(),
        vec![
            "h - help menu".to_string(),
            "l - log in".to_string(),
            "u - upload file".to_string(),
            "f - list files".to_string(),
            "d - download file".to_string(),
        ]
    );
}

#[test]
fn session_encrypts_and_decrypts_with_its_key() {
    let d = Drive::new("token".to_string(), derive_key("pw"));
    assert_eq!(d.access_token(), "token");
    assert!(d.has_valid_key());
    let sealed = d.encrypt_content(b"file body".to_vec());
    assert_eq!(sealed.len(), 9 + 28);
    assert_eq!(d.decrypt_content(sealed), b"file body".to_vec());
    assert!(!Drive::new("t".to_string(), vec![1, 2, 3]).has_valid_key());
}

#[test]
fn auth_redirect_hands_over_the_code() {
    match auth_callback("GET", "/auth?code=abc", Some("abc".to_string())) {
        AuthReply::Received(c) => assert_eq!(c, "abc"),
        _ => panic!("expected the code"),
    }
    assert!(matches!(auth_callback("GET", "/auth", None), AuthReply::MissingCode));
    assert!(matches!(auth_callback("POST", "/auth?code=1", Some("1".to_string())), AuthReply::NotFound));
    assert!(matches!(auth_callback("GET", "/auth/x?code=1", Some("1".to_string())), AuthReply::NotFound));
    assert!(matches!(auth_callback("GET", "/", None), AuthReply::NotFound));
    assert_eq!(AuthReply::Received("c".to_string()).reply_text(), Some("you can close this tab".to_string()));
    assert_eq!(AuthReply::NotFound.reply_text(), Some("404".to_string()));
    assert_eq!(AuthReply::MissingCode.reply_text(), None);
}

fn tokens(access: &str, refresh: Option<&str>) -> TokenPair {
    TokenPair { access_token: access.to_string(), refresh_token: refresh.map(|r| r.to_string()) }
}

#[test]
fn login_flow_steps() {
    match login_step(LoginEvent::SavedToken(Some("r0".to_string()))) {
        LoginAction::RefreshWith(t) => assert_eq!(t, "r0"),
        _ => panic!(),
    }
    match login_step(LoginEvent::SavedToken(None)) {
        LoginAction::CodeLogin(m) => assert_eq!(m, "No refresh token. Please Log in..."),
        _ => panic!(),
    }
    match login_step(LoginEvent::RefreshReply(Ok(tokens("a1", Some("r1"))))) {
        LoginAction::Open { notice, save_token, access_token, fresh_login } => {
            assert_eq!(notice, Some("Using exsiting refresh token.".to_string()));
            assert_eq!(save_token, "r1");
            assert_eq!(access_token, "a1");
            assert!(!fresh_login);
        }
        _ => panic!(),
    }
    match login_step(LoginEvent::RefreshReply(Ok(tokens("a1", None)))) {
        LoginAction::Abort { notice } => {
            assert_eq!(notice, Some("Using exsiting refresh token.".to_string()))
        }
        _ => panic!(),
    }
    match login_step(LoginEvent::RefreshReply(Err("expired".to_string()))) {
        LoginAction::CodeLogin(m) => assert_eq!(m, "auth err expired"),
        _ => panic!(),
    }
    match login_step(LoginEvent::CodeReply(Ok(tokens("a2", Some("r2"))))) {
        LoginAction::Open { notice, save_token, access_token, fresh_login } => {
            assert_eq!(notice, None);
            assert_eq!(save_token, "r2");
            assert_eq!(access_token, "a2");
            assert!(fresh_login);
        }
        _ => panic!(),
    }
    assert!(matches!(login_step(LoginEvent::CodeReply(Err("denied".to_string()))), LoginAction::Abort { notice: None }));
    assert!(matches!(login_step(LoginEvent::CodeReply(Ok(tokens("a", None)))), LoginAction::Abort { notice: None }));
}
