//! The rules of the app that talk to Discord: the shape of a bot token, the
//! addresses of the API calls, and how replies are read.

use vstd::prelude::*;
use crate::text::{owned, contains_text, occurs_in, eq_ignore_ascii_case, eq_ignoring_ascii_case};

verus! {

/// The pattern of a bot token as the developer portal shows it.
pub const TOKEN_PATTERN: &'static str = "^[A-Za-z0-9_-]{24,26}\\.[A-Za-z0-9_-]{6}\\.[A-Za-z0-9_-]{27,40}$";

/// A character of the class `[A-Za-z0-9_-]`.
pub open spec fn token_char(c: char) -> bool {
    ('A' <= c <= 'Z') || ('a' <= c <= 'z') || ('0' <= c <= '9') || c == '_' || c == '-'
}

/// The texts that `TOKEN_PATTERN` matches whole: 24 to 26 token characters,
/// a dot, 6 token characters, a dot, 27 to 40 token characters.
pub open spec fn token_shape(t: Seq<char>) -> bool {
    token_shape_at(t, 24) || token_shape_at(t, 25) || token_shape_at(t, 26)
}

/// The token shape with the first dot at index `a`.
pub open spec fn token_shape_at(t: Seq<char>, a: int) -> bool {
    let b: int = a + 7;
    &&& b + 28 <= t.len() <= b + 41
    &&& t[a] == '.'
    &&& t[b] == '.'
    &&& forall|k: int| 0 <= k < t.len() && k != a && k != b ==> token_char(#[trigger] t[k])
}

/// Whether `regex::Regex::new(pattern)` compiles and its `is_match` accepts
/// a text: `None` where the pattern does not compile.
pub uninterp spec fn regex_outcome(pattern: Seq<char>, text: Seq<char>) -> Option<bool>;

/// `regex::Regex::new(pattern)` then `is_match(text)`; `None` where the
/// pattern does not compile. Claimed: the outcome is the one
/// `regex_outcome` names, and for `TOKEN_PATTERN` the pattern compiles and
/// matches exactly the texts of `token_shape` (`^` and `$` anchor at the
/// ends of the text, the classes are ASCII).
#[verifier::external_body]
fn regex_is_match(pattern: &str, text: &str) -> (r: Option<bool>)
    ensures
        r == regex_outcome(pattern@, text@),
        pattern@ == TOKEN_PATTERN@ ==> r == Some(token_shape(text@)),
{
    match regex::Regex::new(pattern) {
        Ok(re) => Some(re.is_match(text)),
        Err(_) => None,
    }
}

/// Whether a text has the shape of a bot token.
pub fn is_valid_bot_token(token: &str) -> (r: bool)
    ensures
        r == token_shape(token@),
{
    match regex_is_match(TOKEN_PATTERN, token) {
        Some(b) => b,
        None => false,
    }
}

/// The error shown when the token entered has not the shape of a bot token.
pub open spec fn invalid_token_message() -> Seq<char> {
    "Invalid bot token, make sure you paste in the full bot token as provided on the Discord developer portal."@
}

pub fn invalid_token_text() -> (r: String)
    ensures
        r@ == invalid_token_message(),
{
    owned(
        "Invalid bot token, make sure you paste in the full bot token as provided on the Discord developer portal.",
    )
}

fn join3(a: &str, b: &str, c: &str) -> (r: String)
    ensures
        r@ == a@ + b@ + c@,
{
    let mut m = owned(a);
    m.append(b);
    m.append(c);
    m
}

/// The `Authorization` header of a bot.
pub fn bot_authorization(token: &str) -> (r: String)
    ensures
        r@ == "Bot "@ + token@,
{
    let mut m = owned("Bot ");
    m.append(token);
    m
}

/// The address that gives the details of the application of a bot token.
pub fn application_info_url() -> (r: String)
    ensures
        r@ == "https://discord.com/api/v10/oauth2/applications/@me"@,
{
    owned("https://discord.com/api/v10/oauth2/applications/@me")
}

/// The address of the widget configurations of an application.
pub fn widget_configs_url(app_id: &str) -> (r: String)
    ensures
        r@ == "https://discord.com/api/v10/applications/"@ + app_id@ + "/widget-configs"@,
{
    join3("https://discord.com/api/v10/applications/", app_id, "/widget-configs")
}

/// The address of the identity profile of a user of an application.
pub fn identity_profile_url(app_id: &str, user_id: &str) -> (r: String)
    ensures
        r@ == "https://discord.com/api/v9/applications/"@ + app_id@ + "/users/"@ + user_id@
            + "/identities/0/profile"@,
{
    let mut m = join3("https://discord.com/api/v9/applications/", app_id, "/users/");
    m.append(user_id);
    m.append("/identities/0/profile");
    m
}

/// The address that publishes a widget configuration.
pub fn publish_url(app_id: &str, config_id: &str) -> (r: String)
    ensures
        r@ == "https://discord.com/api/v10/applications/"@ + app_id@ + "/widget-configs/"@
            + config_id@ + "/publish"@,
{
    let mut m = join3("https://discord.com/api/v10/applications/", app_id, "/widget-configs/");
    m.append(config_id);
    m.append("/publish");
    m
}

/// The HTTP methods of the requests to the API.
#[derive(Clone, Copy, Debug, PartialEq, Eq, Structural)]
pub enum Method {
    Get,
    Post,
    Patch,
}

/// A request to the API, as it is sent: its method, address,
/// `Authorization` header, and, where it has them, `Content-Type` header and
/// body.
pub struct Request {
    pub method: Method,
    pub url: String,
    pub authorization: String,
    pub content_type: Option<String>,
    pub body: Option<String>,
}

/// Where every request of the app goes.
pub open spec fn api_root() -> Seq<char> {
    "https://discord.com/api/"@
}

/// The request goes to Discord's API and carries the bot token in its
/// `Authorization` header as `Bot {token}`.
pub open spec fn sent_to_api(q: Request, token: Seq<char>) -> bool {
    &&& api_root().is_prefix_of(q.url@)
    &&& q.authorization@ == "Bot "@ + token
}

/// The request without a body: its method, address and bot token.
pub open spec fn plain_request(q: Request, method: Method, url: Seq<char>, token: Seq<char>) -> bool {
    &&& q.method == method
    &&& q.url@ == url
    &&& q.authorization@ == "Bot "@ + token
    &&& q.content_type is None
    &&& q.body is None
}

proof fn lemma_api_prefix(rest: Seq<char>)
    ensures
        api_root().is_prefix_of("https://discord.com/api/v10/"@ + rest),
        api_root().is_prefix_of("https://discord.com/api/v9/"@ + rest),
{
    reveal_strlit("https://discord.com/api/");
    reveal_strlit("https://discord.com/api/v10/");
    reveal_strlit("https://discord.com/api/v9/");
    assert(api_root() =~= ("https://discord.com/api/v10/"@ + rest).subrange(0, api_root().len() as int));
    assert(api_root() =~= ("https://discord.com/api/v9/"@ + rest).subrange(0, api_root().len() as int));
}

/// The request for the details of the application of a bot token.
pub fn application_info_request(token: &str) -> (q: Request)
    ensures
        plain_request(q, Method::Get, "https://discord.com/api/v10/oauth2/applications/@me"@, token@),
        sent_to_api(q, token@),
{
    proof {
        lemma_api_prefix("oauth2/applications/@me"@);
        reveal_strlit("https://discord.com/api/v10/oauth2/applications/@me");
        reveal_strlit("https://discord.com/api/v10/");
        reveal_strlit("oauth2/applications/@me");
        assert("https://discord.com/api/v10/oauth2/applications/@me"@ =~= "https://discord.com/api/v10/"@
            + "oauth2/applications/@me"@);
    }
    Request {
        method: Method::Get,
        url: application_info_url(),
        authorization: bot_authorization(token),
        content_type: None,
        body: None,
    }
}

/// The request for the widget configurations of an application.
pub fn widget_configs_request(token: &str, app_id: &str) -> (q: Request)
    ensures
        plain_request(
            q,
            Method::Get,
            "https://discord.com/api/v10/applications/"@ + app_id@ + "/widget-configs"@,
            token@,
        ),
        sent_to_api(q, token@),
{
    proof {
        reveal_strlit("https://discord.com/api/v10/applications/");
        reveal_strlit("https://discord.com/api/v10/");
        reveal_strlit("applications/");
        let rest = "applications/"@ + app_id@ + "/widget-configs"@;
        lemma_api_prefix(rest);
        assert("https://discord.com/api/v10/applications/"@ + app_id@ + "/widget-configs"@
            =~= "https://discord.com/api/v10/"@ + rest);
    }
    Request {
        method: Method::Get,
        url: widget_configs_url(app_id),
        authorization: bot_authorization(token),
        content_type: None,
        body: None,
    }
}

/// The request that sets the identity profile of a user of an application
/// to the sample data, sent as JSON.
pub fn identity_profile_request(token: &str, app_id: &str, user_id: &str, sample_data: String) -> (q: Request)
    ensures
        q.method == Method::Patch,
        q.url@ == "https://discord.com/api/v9/applications/"@ + app_id@ + "/users/"@ + user_id@
            + "/identities/0/profile"@,
        q.authorization@ == "Bot "@ + token@,
        q.content_type matches Some(c) && c@ == "application/json"@,
        q.body matches Some(b) && b@ == sample_data@,
        sent_to_api(q, token@),
{
    proof {
        reveal_strlit("https://discord.com/api/v9/applications/");
        reveal_strlit("https://discord.com/api/v9/");
        reveal_strlit("applications/");
        let rest = "applications/"@ + app_id@ + "/users/"@ + user_id@ + "/identities/0/profile"@;
        lemma_api_prefix(rest);
        assert("https://discord.com/api/v9/applications/"@ + app_id@ + "/users/"@ + user_id@
            + "/identities/0/profile"@ =~= "https://discord.com/api/v9/"@ + rest);
    }
    Request {
        method: Method::Patch,
        url: identity_profile_url(app_id, user_id),
        authorization: bot_authorization(token),
        content_type: Some(owned("application/json")),
        body: Some(sample_data),
    }
}

/// The request that publishes a widget configuration.
pub fn publish_request(token: &str, app_id: &str, config_id: &str) -> (q: Request)
    ensures
        plain_request(
            q,
            Method::Post,
            "https://discord.com/api/v10/applications/"@ + app_id@ + "/widget-configs/"@ + config_id@
                + "/publish"@,
            token@,
        ),
        sent_to_api(q, token@),
{
    proof {
        reveal_strlit("https://discord.com/api/v10/applications/");
        reveal_strlit("https://discord.com/api/v10/");
        reveal_strlit("applications/");
        let rest = "applications/"@ + app_id@ + "/widget-configs/"@ + config_id@ + "/publish"@;
        lemma_api_prefix(rest);
        assert("https://discord.com/api/v10/applications/"@ + app_id@ + "/widget-configs/"@ + config_id@
            + "/publish"@ =~= "https://discord.com/api/v10/"@ + rest);
    }
    Request {
        method: Method::Post,
        url: publish_url(app_id, config_id),
        authorization: bot_authorization(token),
        content_type: None,
        body: None,
    }
}

/// The address that authorizes an application for the social layer.
pub fn authorize_url(app_id: &str) -> (r: String)
    ensures
        r@ == "https://discord.com/oauth2/authorize?client_id="@ + app_id@
            + "&response_type=token&scope=sdk.social_layer_presence"@,
{
    join3(
        "https://discord.com/oauth2/authorize?client_id=",
        app_id,
        "&response_type=token&scope=sdk.social_layer_presence",
    )
}

/// The developer portal page of an application.
pub fn developer_portal_url(app_id: &str) -> (r: String)
    ensures
        r@ == "https://discord.com/developers/applications/"@ + app_id@,
{
    let mut m = owned("https://discord.com/developers/applications/");
    m.append(app_id);
    m
}

/// Whether an error of the identity update asks for the OAuth2 setup: it
/// holds the code 50025 or the words "Invalid OAuth2 access token".
pub fn is_oauth_token_error(err: &str) -> (r: bool)
    ensures
        r == (occurs_in(err@, "50025"@) || occurs_in(err@, "Invalid OAuth2 access token"@)),
{
    contains_text(err, "50025") || contains_text(err, "Invalid OAuth2 access token")
}

/// Whether a widget configuration status is the draft status, in any case.
pub fn is_draft_status(status: &str) -> (r: bool)
    ensures
        r == eq_ignoring_ascii_case(status@, "draft"@),
{
    eq_ignore_ascii_case(status, "draft")
}

/// The user id shown for an application: its owner's, else its team
/// owner's, else `"Unknown"`.
pub fn owner_id_of(owner: Option<String>, team_owner: Option<String>) -> (r: String)
    ensures
        r@ == match owner {
            Some(o) => o@,
            None => match team_owner {
                Some(t) => t@,
                None => "Unknown"@,
            },
        },
{
    match owner {
        Some(o) => o,
        None => match team_owner {
            Some(t) => t,
            None => owned("Unknown"),
        },
    }
}

} // verus!
