use widget_identity_creator::discord::{
    application_info_url, authorize_url, bot_authorization, developer_portal_url,
    identity_profile_url, is_draft_status, is_oauth_token_error, is_valid_bot_token,
    owner_id_of, publish_url, widget_configs_url,
};
use widget_identity_creator::discord::{Method, Request};
use widget_identity_creator::{AppState, ApplicationDetails, TokenState, WidgetState};

fn token(a: usize, b: usize, c: usize) -> String {
    format!("{}.{}.{}", "A".repeat(a), "b".repeat(b), "9_-".repeat(c / 3) + &"z".repeat(c % 3))
}

#[test]
fn token_shapes() {
    assert!(is_valid_bot_token(&token(24, 6, 27)));
    assert!(is_valid_bot_token(&token(26, 6, 40)));
    assert!(is_valid_bot_token(&token(25, 6, 33)));
    assert!(!is_valid_bot_token(&token(23, 6, 27)));
    assert!(!is_valid_bot_token(&token(27, 6, 27)));
    assert!(!is_valid_bot_token(&token(24, 5, 27)));
    assert!(!is_valid_bot_token(&token(24, 6, 26)));
    assert!(!is_valid_bot_token(&token(24, 6, 41)));
    assert!(!is_valid_bot_token(&format!("{} ", token(24, 6, 27))));
    assert!(!is_valid_bot_token(&token(24, 6, 27).replace('A', "é")));
    assert!(!is_valid_bot_token(""));
}

#[test]
fn request_addresses() {
    assert_eq!(application_info_url(), "https://discord.com/api/v10/oauth2/applications/@me");
    assert_eq!(widget_configs_url("123"), "https://discord.com/api/v10/applications/123/widget-configs");
    assert_eq!(
        identity_profile_url("1", "2"),
        "https://discord.com/api/v9/applications/1/users/2/identities/0/profile"
    );
    assert_eq!(
        publish_url("1", "cfg"),
        "https://discord.com/api/v10/applications/1/widget-configs/cfg/publish"
    );
    assert_eq!(
        authorize_url("9"),
        "https://discord.com/oauth2/authorize?client_id=9&response_type=token&scope=sdk.social_layer_presence"
    );
    assert_eq!(developer_portal_url("9"), "https://discord.com/developers/applications/9");
    assert_eq!(bot_authorization("tok"), "Bot tok");
}

#[test]
fn reply_classification() {
    assert!(is_oauth_token_error("Discord API error (401): {\"code\": 50025}"));
    assert!(is_oauth_token_error("Invalid OAuth2 access token"));
    assert!(!is_oauth_token_error("Invalid OAuth2 token 5002"));
    assert!(!is_oauth_token_error(""));
    assert!(is_draft_status("draft"));
    assert!(is_draft_status("DRAFT"));
    assert!(is_draft_status("Draft"));
    assert!(!is_draft_status("drafts"));
    assert!(!is_draft_status("published"));
    assert_eq!(owner_id_of(Some("o".to_string()), Some("t".to_string())), "o");
    assert_eq!(owner_id_of(None, Some("t".to_string())), "t");
    assert_eq!(owner_id_of(None, None), "Unknown");
}

#[test]
fn token_confirmation() {
    let mut t = TokenState::default();
    t.token = "short".to_string();
    assert!(!t.confirm_token());
    assert_eq!(
        t.error,
        "Invalid bot token, make sure you paste in the full bot token as provided on the Discord developer portal."
    );
    assert!(!t.fetching);
    t.token = token(24, 6, 27);
    assert!(t.confirm_token());
    assert_eq!(t.error, "");
    assert!(t.fetching);
    assert!(t.input_locked());

    let d = ApplicationDetails::from_reply("1".to_string(), "App".to_string(), None, Some("7".to_string()));
    t.finish_fetch(Ok(d));
    assert!(!t.fetching);
    assert!(t.token_confirmed);
    assert_eq!(t.app_id(), "1");
    assert_eq!(t.owner_id(), "7");

    let mut u = TokenState::default();
    u.fetching = true;
    u.finish_fetch(Err("Request failed".to_string()));
    assert!(!u.fetching);
    assert!(!u.token_confirmed);
    assert_eq!(u.error, "Request failed");
    assert_eq!(u.app_id(), "");
}

#[test]
fn widget_fetch_and_sample_placeholder() {
    let mut w = WidgetState::default();
    w.fetching = true;
    w.finish_fetch(Ok(r#"{"surfaces": {}}"#.to_string()));
    assert!(!w.fetching);
    assert_eq!(w.sample_data, "{\"data\":{}}");

    let mut w2 = WidgetState::default();
    w2.sample_data = "keep".to_string();
    w2.finish_fetch(Ok(r#"{"surfaces": {"s": {"components": {"c": {"fields": {"f": {"value_type": "data", "value": "x", "presentation_type": "text"}}}}}}}"#.to_string()));
    assert_eq!(w2.sample_data, "keep");
    w2.finish_fetch(Err("boom".to_string()));
    assert_eq!(w2.error, "boom");

    let mut w3 = WidgetState::default();
    w3.config_json = "[]".to_string();
    assert!(w3.has_no_configs());
    w3.fill_empty_sample();
    assert_eq!(w3.sample_data, "{\"data\":{}}");
    assert!(!w3.can_apply());
}

#[test]
fn apply_and_publish_outcomes() {
    let mut w = WidgetState::default();
    w.config_json = r#"{"surfaces": {}}"#.to_string();
    assert!(!w.can_apply());
    w.sample_data = "{\"data\":{\"dynamic\":[]}}".to_string();
    assert!(w.can_apply());
    w.begin_apply();
    assert!(w.applying);
    w.finish_apply(Err("no".to_string()));
    assert!(!w.applying);
    assert_eq!(w.apply_error, Some("no".to_string()));
    assert_eq!(w.apply_success, None);
    w.begin_publish();
    w.finish_publish(Ok("done".to_string()));
    assert!(!w.publishing);
    assert_eq!(w.publish_success, Some("done".to_string()));
    assert_eq!(w.publish_error, None);
}

#[test]
fn details_confirmation_starts_the_widget_fetch() {
    let mut s = AppState::default();
    s.confirm_details();
    assert!(s.token.confirmed);
    assert!(s.widget.fetching);
    s = AppState::default();
    assert!(!s.token.confirmed && !s.widget.fetching);
}

fn start_state(s: &AppState) -> bool {
    s.token.token.is_empty()
        && s.token.error.is_empty()
        && !s.token.token_confirmed
        && !s.token.confirmed
        && !s.token.fetching
        && s.token.details.is_none()
        && !s.widget.fetching
        && s.widget.config_json.is_empty()
        && s.widget.sample_data.is_empty()
        && s.widget.error.is_empty()
        && !s.widget.applying
        && s.widget.apply_success.is_none()
        && s.widget.apply_error.is_none()
        && !s.widget.publishing
        && s.widget.publish_success.is_none()
        && s.widget.publish_error.is_none()
}

#[test]
fn start_state_is_empty() {
    assert!(start_state(&AppState::default()));
}

#[test]
fn walk_through_every_step_then_reset() {
    let mut s = AppState::default();
    assert!(s.click_confirm_details().is_none());
    assert!(s.click_apply().is_none());
    assert!(s.click_publish().is_none());

    s.token.token = "short".to_string();
    assert!(s.click_confirm_token().is_none());
    assert!(!s.token.error.is_empty());
    s.token.token = token(24, 6, 27);
    assert!(s.click_confirm_token().is_some());
    assert!(s.token.error.is_empty());
    assert!(s.token.fetching);
    assert!(s.click_confirm_token().is_none());

    let d = ApplicationDetails::from_reply("1".to_string(), "App".to_string(), Some("2".to_string()), None);
    s.receive_token(Ok(d));
    assert!(s.token.token_confirmed && !s.token.fetching);
    assert!(s.click_confirm_token().is_none());

    assert!(s.click_confirm_details().is_some());
    assert!(s.token.confirmed && s.widget.fetching);
    assert!(s.click_confirm_details().is_none());

    s.receive_widget_config(Ok(r#"{"config_id": "cfg", "status": "Draft", "surfaces": {}}"#.to_string()));
    assert!(!s.widget.fetching);
    assert_eq!(s.widget.sample_data, "{\"data\":{}}");
    assert!(s.click_apply().is_none());
    s.widget.sample_data = "{\"data\":{\"dynamic\":[]}}".to_string();

    assert!(s.click_apply().is_some());
    assert!(s.widget.applying);
    assert!(s.click_apply().is_none());
    s.receive_apply(Err("Discord API error (401): 50025".to_string()));
    assert!(!s.widget.applying);
    assert_eq!(s.widget.apply_error, Some("Discord API error (401): 50025".to_string()));
    assert!(s.click_apply().is_some());
    assert_eq!(s.widget.apply_error, None);
    s.receive_apply(Ok("Application identity updated successfully!".to_string()));
    assert_eq!(s.widget.apply_success, Some("Application identity updated successfully!".to_string()));
    assert_eq!(s.widget.apply_error, None);

    let publish = s.click_publish().unwrap();
    assert_eq!(publish.method, Method::Post);
    assert_eq!(publish.url, "https://discord.com/api/v10/applications/1/widget-configs/cfg/publish");
    assert_eq!(publish.authorization, format!("Bot {}", token(24, 6, 27)));
    assert!(publish.content_type.is_none() && publish.body.is_none());
    assert!(s.widget.publishing);
    assert!(s.click_publish().is_none());
    s.receive_publish(Err("no".to_string()));
    assert_eq!(s.widget.publish_error, Some("no".to_string()));
    assert_eq!(s.widget.publish_success, None);

    s.token.error = "stale".to_string();
    s.widget.error = "stale".to_string();
    s.reset();
    assert!(start_state(&s));
}

#[test]
fn failed_token_fetch_leaves_the_token_open() {
    let mut s = AppState::default();
    s.token.token = token(26, 6, 40);
    assert!(s.click_confirm_token().is_some());
    s.receive_token(Err("Request failed: offline".to_string()));
    assert!(!s.token.fetching && !s.token.token_confirmed);
    assert_eq!(s.token.error, "Request failed: offline");
    assert!(s.click_confirm_details().is_none());
    assert!(s.click_confirm_token().is_some());
}

#[test]
fn published_configuration_offers_no_publish() {
    let mut s = AppState::default();
    s.token.token = token(24, 6, 27);
    assert!(s.click_confirm_token().is_some());
    s.receive_token(Ok(ApplicationDetails::from_reply("1".to_string(), "A".to_string(), None, None)));
    assert!(s.click_confirm_details().is_some());
    s.receive_widget_config(Ok(r#"{"config_id": "cfg", "status": "published"}"#.to_string()));
    assert!(s.click_publish().is_none());
    assert!(!s.widget.publishing);
    s.widget.sample_data = "not json".to_string();
    assert!(s.click_apply().is_none());
}

fn to_api(req: &Request, tok: &str) -> bool {
    req.url.starts_with("https://discord.com/api/") && req.authorization == format!("Bot {tok}")
}

#[test]
fn every_request_goes_to_the_api_with_the_token_header() {
    let tok = token(25, 6, 30);
    let mut s = AppState::default();
    s.token.token = tok.clone();
    let info = s.click_confirm_token().unwrap();
    assert_eq!(info.method, Method::Get);
    assert_eq!(info.url, "https://discord.com/api/v10/oauth2/applications/@me");
    assert!(to_api(&info, &tok) && info.body.is_none() && info.content_type.is_none());

    s.receive_token(Ok(ApplicationDetails::from_reply("app@evil.example".to_string(), "A".to_string(), Some("u/1".to_string()), None)));
    let configs = s.click_confirm_details().unwrap();
    assert_eq!(configs.method, Method::Get);
    assert_eq!(configs.url, "https://discord.com/api/v10/applications/app@evil.example/widget-configs");
    assert!(to_api(&configs, &tok));

    s.receive_widget_config(Ok(r#"{"config_id": "c", "status": "draft"}"#.to_string()));
    s.widget.sample_data = "{\"data\":{\"dynamic\":[]}}".to_string();
    let apply = s.click_apply().unwrap();
    assert_eq!(apply.method, Method::Patch);
    assert_eq!(apply.url, "https://discord.com/api/v9/applications/app@evil.example/users/u/1/identities/0/profile");
    assert_eq!(apply.content_type.as_deref(), Some("application/json"));
    assert_eq!(apply.body.as_deref(), Some("{\"data\":{\"dynamic\":[]}}"));
    assert!(to_api(&apply, &tok));

    let publish = s.click_publish().unwrap();
    assert!(to_api(&publish, &tok));
    assert_eq!(publish.url, "https://discord.com/api/v10/applications/app@evil.example/widget-configs/c/publish");
}
