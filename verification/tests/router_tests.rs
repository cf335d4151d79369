use dietpi_dashboard::Config;
use dietpi_dashboard::LoginOutcome;
use dietpi_dashboard::login_attempt;
use dietpi_dashboard::router::Page;
use dietpi_dashboard::router::Request;
use dietpi_dashboard::router::RouterAction;
use dietpi_dashboard::router::RouterState;
use dietpi_dashboard::router::parse_page;

fn switch(page: &str) -> Request {
    Request {
        page: page.to_string(),
        token: String::new(),
        cmd: String::new(),
        args: Vec::new(),
    }
}

fn command(cmd: &str, token: &str) -> Request {
    Request {
        page: String::new(),
        token: token.to_string(),
        cmd: cmd.to_string(),
        args: Vec::new(),
    }
}

#[test]
fn page_table_maps_every_known_page() {
    assert_eq!(parse_page("/"), Some(Page::Main));
    assert_eq!(parse_page("/process"), Some(Page::Process));
    assert_eq!(parse_page("/software"), Some(Page::Software));
    assert_eq!(parse_page("/management"), Some(Page::Management));
    assert_eq!(parse_page("/service"), Some(Page::Service));
    assert_eq!(parse_page("/browser"), Some(Page::Browser));
    assert_eq!(parse_page("/login"), Some(Page::Login));
    assert_eq!(parse_page("/unknown"), None);
    assert_eq!(parse_page(""), None);
}

#[test]
fn page_switch_scenario_cancels_before_starting() {
    // auth disabled: connect, switch to "/", then to "/process"; the first
    // handler must observably stop before the second starts
    let mut state = RouterState::new();

    let actions = state.handle_frame(Some(switch("/")), false, "", 0);
    assert_eq!(actions.len(), 1);
    assert!(matches!(actions[0], RouterAction::Start(Page::Main)));
    assert_eq!(state.active, Some(Page::Main));

    let actions = state.handle_frame(Some(switch("/process")), false, "", 0);
    assert_eq!(actions.len(), 2);
    assert!(matches!(actions[0], RouterAction::CancelActive));
    assert!(matches!(actions[1], RouterAction::Start(Page::Process)));
    assert_eq!(state.active, Some(Page::Process));
}

#[test]
fn connect_pushes_one_global_snapshot_first() {
    let state = RouterState::new();
    let actions = state.on_connect();
    assert_eq!(actions.len(), 1);
    assert!(matches!(actions[0], RouterAction::SendGlobal));
}

#[test]
fn malformed_frame_is_skipped() {
    let mut state = RouterState::new();
    let actions = state.handle_frame(None, false, "", 0);
    assert!(actions.is_empty());
    assert_eq!(state.active, None);
}

#[test]
fn unknown_page_is_ignored() {
    let mut state = RouterState::new();
    state.handle_frame(Some(switch("/")), false, "", 0);
    let actions = state.handle_frame(Some(switch("/nonsense")), false, "", 0);
    assert!(actions.is_empty());
    assert_eq!(state.active, Some(Page::Main));
}

#[test]
fn command_before_any_page_is_ignored() {
    let mut state = RouterState::new();
    let actions = state.handle_frame(Some(command("refresh", "")), false, "", 0);
    assert!(actions.is_empty());
}

#[test]
fn command_is_forwarded_to_active_handler() {
    let mut state = RouterState::new();
    state.handle_frame(Some(switch("/process")), false, "", 0);
    let actions = state.handle_frame(Some(command("kill", "")), false, "", 0);
    assert_eq!(actions.len(), 1);
    match &actions[0] {
        RouterAction::Forward(req) => assert_eq!(req.cmd, "kill"),
        _ => panic!("expected the command to be forwarded"),
    }
}

#[test]
fn login_page_answers_error_notice() {
    let mut state = RouterState::new();
    let actions = state.handle_frame(Some(switch("/login")), false, "", 0);
    assert_eq!(actions.len(), 1);
    assert!(matches!(actions[0], RouterAction::SendError));
    assert_eq!(state.active, None);
}

#[test]
fn auth_scenario_invalid_then_valid_token() {
    // auth enabled: a request with an invalid token yields the error notice
    // and no page content; a later request with a valid token succeeds
    let mut config = Config::default();
    config.pass = true;
    config.hash = {
        let digest = ring::digest::digest(&ring::digest::SHA512, b"pw");
        let mut out = String::new();
        for b in digest.as_ref() {
            out.push_str(&format!("{:02x}", b));
        }
        out
    };
    config.secret = "s3cr3t".to_string();
    let now: u64 = 1_600_000_000;

    let mut state = RouterState::new();
    let mut bad = switch("/");
    bad.token = "invalid".to_string();
    let actions = state.handle_frame(Some(bad), true, "s3cr3t", now);
    assert_eq!(actions.len(), 1);
    assert!(matches!(actions[0], RouterAction::SendError));
    assert_eq!(state.active, None);

    let token = match login_attempt(b"pw", &config, now) {
        LoginOutcome::Token(token) => token,
        _ => panic!("expected a token"),
    };
    let mut good = switch("/");
    good.token = token;
    let actions = state.handle_frame(Some(good), true, "s3cr3t", now);
    assert_eq!(actions.len(), 1);
    assert!(matches!(actions[0], RouterAction::Start(Page::Main)));
    assert_eq!(state.active, Some(Page::Main));
}

#[test]
fn auth_failure_cancels_active_handler_first() {
    let mut state = RouterState::new();
    state.handle_frame(Some(switch("/")), false, "", 0);
    assert_eq!(state.active, Some(Page::Main));
    // password protection on and an invalid token: the active handler is
    // cancelled before the error notice goes out
    let mut bad = switch("/process");
    bad.token = "invalid".to_string();
    let actions = state.handle_frame(Some(bad), true, "s3cr3t", 0);
    assert_eq!(actions.len(), 2);
    assert!(matches!(actions[0], RouterAction::CancelActive));
    assert!(matches!(actions[1], RouterAction::SendError));
    assert_eq!(state.active, None);
}

#[test]
fn close_cancels_active_handler() {
    let mut state = RouterState::new();
    state.handle_frame(Some(switch("/browser")), false, "", 0);
    let actions = state.on_close();
    assert_eq!(actions.len(), 1);
    assert!(matches!(actions[0], RouterAction::CancelActive));
    assert_eq!(state.active, None);

    let mut idle = RouterState::new();
    assert!(idle.on_close().is_empty());
}
