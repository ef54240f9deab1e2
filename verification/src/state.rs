//! The state of the app between frames, and how each event changes it.
//!
//! The app runs the network requests; it hands their outcome to these
//! functions and reads back what to show and what to start.

use vstd::prelude::*;
use crate::json::json_text_parse;
use crate::text::owned;
use crate::text::eq_ignoring_ascii_case;
use crate::discord::{
    is_valid_bot_token, token_shape, invalid_token_text, invalid_token_message, is_draft_status,
    Method, Request, plain_request, sent_to_api, application_info_request, widget_configs_request,
    identity_profile_request, publish_request,
};
use crate::validator::{
    extract_dynamic_fields, dynamic_fields_report, validate_sample_data, sample_report,
    config_info_report, get_widget_config_info,
};

verus! {

/// The application that a bot token belongs to.
#[derive(Clone)]
pub struct ApplicationDetails {
    pub app_id: String,
    pub owner_id: String,
    pub app_name: String,
    pub flags: u64,
}

impl Default for ApplicationDetails {
    fn default() -> (r: Self)
        ensures
            r.app_id@ == Seq::<char>::empty(),
            r.owner_id@ == Seq::<char>::empty(),
            r.app_name@ == Seq::<char>::empty(),
            r.flags == 0,
    {
        ApplicationDetails {
            app_id: String::new(),
            owner_id: String::new(),
            app_name: String::new(),
            flags: 0,
        }
    }
}

impl ApplicationDetails {
    /// The details read from the application reply: its id and name, and as
    /// user the owner, else the team owner, else `"Unknown"`.
    pub fn from_reply(
        id: String,
        name: String,
        owner: Option<String>,
        team_owner: Option<String>,
    ) -> (r: Self)
        ensures
            r.app_id@ == id@,
            r.app_name@ == name@,
            r.owner_id@ == match owner {
                Some(o) => o@,
                None => match team_owner {
                    Some(t) => t@,
                    None => "Unknown"@,
                },
            },
            r.flags == 0,
    {
        ApplicationDetails {
            app_id: id,
            owner_id: crate::discord::owner_id_of(owner, team_owner),
            app_name: name,
            flags: 0,
        }
    }
}

/// The bot token step.
pub struct TokenState {
    pub token: String,
    pub error: String,
    pub token_confirmed: bool,
    pub confirmed: bool,
    pub fetching: bool,
    pub details: Option<ApplicationDetails>,
}

impl Default for TokenState {
    fn default() -> (r: Self)
        ensures
            r.token@ == Seq::<char>::empty(),
            r.error@ == Seq::<char>::empty(),
            !r.token_confirmed,
            !r.confirmed,
            !r.fetching,
            r.details is None,
    {
        TokenState {
            token: String::new(),
            error: String::new(),
            token_confirmed: false,
            confirmed: false,
            fetching: false,
            details: None,
        }
    }
}

impl TokenState {
    /// Whether the token field is locked: the token is confirmed or being
    /// checked.
    pub fn input_locked(&self) -> (r: bool)
        ensures
            r == (self.token_confirmed || self.fetching),
    {
        self.token_confirmed || self.fetching
    }

    /// The token is confirmed: a token of the right shape clears the error
    /// and starts the fetch of the application details (the answer says
    /// whether to start it); another sets the error.
    pub fn confirm_token(&mut self) -> (start: bool)
        ensures
            start == token_shape(old(self).token@),
            start ==> final(self).error@ == Seq::<char>::empty() && *final(self) == (TokenState {
                fetching: true,
                error: final(self).error,
                ..*old(self)
            }),
            !start ==> final(self).error@ == invalid_token_message() && *final(self) == (TokenState {
                error: final(self).error,
                ..*old(self)
            }),
    {
        if !is_valid_bot_token(self.token.as_str()) {
            self.error = invalid_token_text();
            false
        } else {
            self.error = String::new();
            self.fetching = true;
            true
        }
    }

    /// The fetch of the application details ended: on success the details
    /// are kept, the token confirmed and the error cleared; on failure the
    /// error is shown and the token not confirmed.
    pub fn finish_fetch(&mut self, res: Result<ApplicationDetails, String>)
        ensures
            match res {
                Ok(d) => final(self).error@ == Seq::<char>::empty() && *final(self) == (TokenState {
                    fetching: false,
                    details: Some(d),
                    token_confirmed: true,
                    error: final(self).error,
                    ..*old(self)
                }),
                Err(e) => *final(self) == (TokenState {
                    fetching: false,
                    error: e,
                    token_confirmed: false,
                    ..*old(self)
                }),
            },
    {
        self.fetching = false;
        match res {
            Ok(details) => {
                self.details = Some(details);
                self.token_confirmed = true;
                self.error = String::new();
            },
            Err(err) => {
                self.error = err;
                self.token_confirmed = false;
            },
        }
    }

    /// The application id of the details, empty without details.
    pub open spec fn details_app_id(&self) -> Seq<char> {
        match self.details {
            Some(d) => d.app_id@,
            None => Seq::<char>::empty(),
        }
    }

    /// The user id of the details, empty without details.
    pub open spec fn details_owner_id(&self) -> Seq<char> {
        match self.details {
            Some(d) => d.owner_id@,
            None => Seq::<char>::empty(),
        }
    }

    /// The application id of the details, empty without details.
    pub fn app_id(&self) -> (r: String)
        ensures
            r@ == self.details_app_id(),
    {
        match &self.details {
            Some(d) => d.app_id.clone(),
            None => String::new(),
        }
    }

    /// The user id of the details, empty without details.
    pub fn owner_id(&self) -> (r: String)
        ensures
            r@ == self.details_owner_id(),
    {
        match &self.details {
            Some(d) => d.owner_id.clone(),
            None => String::new(),
        }
    }
}

/// The widget step: the configuration, the sample data, and the apply and
/// publish requests.
pub struct WidgetState {
    pub fetching: bool,
    pub config_json: String,
    pub sample_data: String,
    pub error: String,
    pub applying: bool,
    pub apply_success: Option<String>,
    pub apply_error: Option<String>,
    pub publishing: bool,
    pub publish_success: Option<String>,
    pub publish_error: Option<String>,
}

impl Default for WidgetState {
    fn default() -> (r: Self)
        ensures
            !r.fetching,
            r.config_json@ == Seq::<char>::empty(),
            r.sample_data@ == Seq::<char>::empty(),
            r.error@ == Seq::<char>::empty(),
            !r.applying,
            r.apply_success is None,
            r.apply_error is None,
            !r.publishing,
            r.publish_success is None,
            r.publish_error is None,
    {
        WidgetState {
            fetching: false,
            config_json: String::new(),
            sample_data: String::new(),
            error: String::new(),
            applying: false,
            apply_success: None,
            apply_error: None,
            publishing: false,
            publish_success: None,
            publish_error: None,
        }
    }
}

/// The sample data set where a configuration has no data fields.
pub open spec fn empty_sample_text() -> Seq<char> {
    "{\"data\":{}}"@
}

impl WidgetState {
    /// The fetch of the widget configuration ended: on success the
    /// configuration is kept, the error cleared, and the sample data set to
    /// `{"data":{}}` if the configuration has no data fields; on failure the
    /// error is shown.
    pub fn finish_fetch(&mut self, res: Result<String, String>)
        ensures
            match res {
                Ok(json) => {
                    &&& final(self).error@ == Seq::<char>::empty()
                    &&& final(self).sample_data@ == if dynamic_fields_report(json_text_parse(json@)).len() == 0 {
                        empty_sample_text()
                    } else {
                        old(self).sample_data@
                    }
                    &&& *final(self) == (WidgetState {
                        fetching: false,
                        config_json: json,
                        error: final(self).error,
                        sample_data: final(self).sample_data,
                        ..*old(self)
                    })
                },
                Err(e) => *final(self) == (WidgetState { fetching: false, error: e, ..*old(self) }),
            },
    {
        self.fetching = false;
        match res {
            Ok(json) => {
                let specs = extract_dynamic_fields(json.as_str());
                if specs.len() == 0 {
                    self.sample_data = owned("{\"data\":{}}");
                }
                self.config_json = json;
                self.error = String::new();
            },
            Err(err) => {
                self.error = err;
            },
        }
    }

    /// Where the configuration has no data fields and the sample data is
    /// empty, the sample data becomes `{"data":{}}`.
    pub fn fill_empty_sample(&mut self)
        ensures
            final(self).sample_data@ == if old(self).config_json@.len() > 0
                && old(self).sample_data@.len() == 0
                && dynamic_fields_report(json_text_parse(old(self).config_json@)).len() == 0 {
                empty_sample_text()
            } else {
                old(self).sample_data@
            },
            *final(self) == (WidgetState { sample_data: final(self).sample_data, ..*old(self) }),
    {
        let specs = extract_dynamic_fields(self.config_json.as_str());
        if specs.len() == 0 && !self.config_json.as_str().is_empty()
            && self.sample_data.as_str().is_empty() {
            self.sample_data = owned("{\"data\":{}}");
        }
    }

    /// Whether the sample data can be applied: it is not empty and has no
    /// problem against the configuration.
    pub fn can_apply(&self) -> (r: bool)
        ensures
            r == (self.sample_data@.len() > 0 && sample_report(
                json_text_parse(self.config_json@),
                json_text_parse(self.sample_data@),
            ).len() == 0),
    {
        if self.sample_data.as_str().is_empty() {
            return false;
        }
        let errors = validate_sample_data(self.config_json.as_str(), self.sample_data.as_str());
        errors.len() == 0
    }

    /// Whether the configuration fetched is the empty list.
    pub fn has_no_configs(&self) -> (r: bool)
        ensures
            r == (self.config_json@ == "[]"@),
    {
        crate::text::str_eq(self.config_json.as_str(), "[]")
    }

    /// The sample data is being applied: the earlier outcome is cleared.
    pub fn begin_apply(&mut self)
        ensures
            *final(self) == (WidgetState {
                applying: true,
                apply_success: None,
                apply_error: None,
                ..*old(self)
            }),
    {
        self.applying = true;
        self.apply_success = None;
        self.apply_error = None;
    }

    /// The apply request ended with a message or an error.
    pub fn finish_apply(&mut self, res: Result<String, String>)
        ensures
            *final(self) == match res {
                Ok(m) => (WidgetState {
                    applying: false,
                    apply_success: Some(m),
                    apply_error: None,
                    ..*old(self)
                }),
                Err(e) => (WidgetState {
                    applying: false,
                    apply_success: None,
                    apply_error: Some(e),
                    ..*old(self)
                }),
            },
    {
        self.applying = false;
        match res {
            Ok(msg) => {
                self.apply_success = Some(msg);
                self.apply_error = None;
            },
            Err(err) => {
                self.apply_error = Some(err);
                self.apply_success = None;
            },
        }
    }

    /// The configuration is being published: the earlier outcome is cleared.
    pub fn begin_publish(&mut self)
        ensures
            *final(self) == (WidgetState {
                publishing: true,
                publish_success: None,
                publish_error: None,
                ..*old(self)
            }),
    {
        self.publishing = true;
        self.publish_success = None;
        self.publish_error = None;
    }

    /// The publish request ended with a message or an error.
    pub fn finish_publish(&mut self, res: Result<String, String>)
        ensures
            *final(self) == match res {
                Ok(m) => (WidgetState {
                    publishing: false,
                    publish_success: Some(m),
                    publish_error: None,
                    ..*old(self)
                }),
                Err(e) => (WidgetState {
                    publishing: false,
                    publish_success: None,
                    publish_error: Some(e),
                    ..*old(self)
                }),
            },
    {
        self.publishing = false;
        match res {
            Ok(msg) => {
                self.publish_success = Some(msg);
                self.publish_error = None;
            },
            Err(err) => {
                self.publish_error = Some(err);
                self.publish_success = None;
            },
        }
    }
}

/// The whole state of the app.
pub struct AppState {
    pub token: TokenState,
    pub widget: WidgetState,
}

impl AppState {
    /// The state the app starts in: every text empty, every flag down, no
    /// details and no message.
    pub open spec fn is_start_state(&self) -> bool {
        &&& self.token.token@ == Seq::<char>::empty()
        &&& self.token.error@ == Seq::<char>::empty()
        &&& !self.token.token_confirmed
        &&& !self.token.confirmed
        &&& !self.token.fetching
        &&& self.token.details is None
        &&& !self.widget.fetching
        &&& self.widget.config_json@ == Seq::<char>::empty()
        &&& self.widget.sample_data@ == Seq::<char>::empty()
        &&& self.widget.error@ == Seq::<char>::empty()
        &&& !self.widget.applying
        &&& self.widget.apply_success is None
        &&& self.widget.apply_error is None
        &&& !self.widget.publishing
        &&& self.widget.publish_success is None
        &&& self.widget.publish_error is None
    }
}

impl Default for AppState {
    fn default() -> (r: Self)
        ensures
            r.is_start_state(),
            r.wf(),
    {
        AppState { token: TokenState::default(), widget: WidgetState::default() }
    }
}

impl AppState {
    /// What holds of every state the app reaches from its start state: the
    /// details are confirmed only after the token is, a confirmed token has
    /// its details, a token being checked is not confirmed, the widget steps
    /// run only after the details are confirmed, and a request never shows a
    /// success and an error at once.
    pub open spec fn wf(&self) -> bool {
        &&& self.token.confirmed ==> self.token.token_confirmed
        &&& self.token.token_confirmed ==> self.token.details is Some
        &&& self.token.fetching ==> !self.token.token_confirmed
        &&& (self.widget.fetching || self.widget.config_json@.len() > 0 || self.widget.applying
            || self.widget.publishing) ==> self.token.confirmed
        &&& !(self.widget.apply_success is Some && self.widget.apply_error is Some)
        &&& !(self.widget.publish_success is Some && self.widget.publish_error is Some)
    }

    /// Whether the Apply button is shown and may start a request: the token
    /// is confirmed, a configuration is there, nothing is being applied, and
    /// the sample data is not empty and has no problem.
    pub open spec fn apply_allowed(&self) -> bool {
        &&& self.token.token_confirmed
        &&& self.widget.config_json@.len() > 0
        &&& !self.widget.applying
        &&& self.widget.sample_data@.len() > 0
        &&& sample_report(
            json_text_parse(self.widget.config_json@),
            json_text_parse(self.widget.sample_data@),
        ).len() == 0
    }

    /// The configuration id that the Publish button publishes, where it is
    /// shown and may start a request: the token is confirmed, nothing is
    /// being published, and the configuration is a draft.
    pub open spec fn publish_target(&self) -> Option<Seq<char>> {
        if self.token.token_confirmed && self.widget.config_json@.len() > 0
            && !self.widget.publishing {
            match config_info_report(json_text_parse(self.widget.config_json@)) {
                Some((id, status)) => if eq_ignoring_ascii_case(status, "draft"@) {
                    Some(id)
                } else {
                    None
                },
                None => None,
            }
        } else {
            None
        }
    }

    /// The application details are confirmed: the fetch of the widget
    /// configuration starts.
    pub fn confirm_details(&mut self)
        ensures
            *final(self) == (AppState {
                token: TokenState { confirmed: true, ..old(self).token },
                widget: WidgetState { fetching: true, ..old(self).widget },
            }),
    {
        self.token.confirmed = true;
        self.widget.fetching = true;
    }

    /// The token's Confirm button was clicked. It is shown only while the
    /// token is neither confirmed nor being checked; then the token is
    /// checked as by [`TokenState::confirm_token`], and the answer is the
    /// request for the application details, where it is to be sent.
    pub fn click_confirm_token(&mut self) -> (r: Option<Request>)
        requires
            old(self).wf(),
        ensures
            final(self).wf(),
            final(self).widget == old(self).widget,
            r is Some == (!old(self).token.fetching && !old(self).token.token_confirmed
                && token_shape(old(self).token.token@)),
            r matches Some(q) ==> plain_request(
                q,
                Method::Get,
                "https://discord.com/api/v10/oauth2/applications/@me"@,
                old(self).token.token@,
            ) && sent_to_api(q, old(self).token.token@),
            (old(self).token.fetching || old(self).token.token_confirmed) ==> *final(self)
                == *old(self),
            r is Some ==> final(self).token.error@ == Seq::<char>::empty() && final(self).token
                == (TokenState { fetching: true, error: final(self).token.error, ..old(self).token }),
            (!old(self).token.fetching && !old(self).token.token_confirmed && r is None) ==> {
                &&& final(self).token.error@ == invalid_token_message()
                &&& final(self).token == (TokenState { error: final(self).token.error, ..old(self).token })
            },
    {
        if self.token.fetching || self.token.token_confirmed {
            return None;
        }
        if self.token.confirm_token() {
            Some(application_info_request(self.token.token.as_str()))
        } else {
            None
        }
    }

    /// The application details arrived, or their fetch failed; see
    /// [`TokenState::finish_fetch`].
    pub fn receive_token(&mut self, res: Result<ApplicationDetails, String>)
        requires
            old(self).wf(),
            old(self).token.fetching,
        ensures
            final(self).wf(),
            final(self).widget == old(self).widget,
            match res {
                Ok(d) => final(self).token.error@ == Seq::<char>::empty() && final(self).token == (
                TokenState {
                    fetching: false,
                    details: Some(d),
                    token_confirmed: true,
                    error: final(self).token.error,
                    ..old(self).token
                }),
                Err(e) => final(self).token == (TokenState {
                    fetching: false,
                    error: e,
                    token_confirmed: false,
                    ..old(self).token
                }),
            },
    {
        self.token.finish_fetch(res);
    }

    /// The Confirm button of the details was clicked. It is shown only while
    /// the token is confirmed and the details are not; then the details are
    /// confirmed as by [`AppState::confirm_details`], and the answer is the
    /// request for the widget configurations of the application, where it is
    /// to be sent.
    pub fn click_confirm_details(&mut self) -> (r: Option<Request>)
        requires
            old(self).wf(),
        ensures
            final(self).wf(),
            r is Some == (old(self).token.token_confirmed && !old(self).token.confirmed),
            r matches Some(q) ==> plain_request(
                q,
                Method::Get,
                "https://discord.com/api/v10/applications/"@ + old(self).token.details_app_id()
                    + "/widget-configs"@,
                old(self).token.token@,
            ) && sent_to_api(q, old(self).token.token@),
            r is Some ==> *final(self) == (AppState {
                token: TokenState { confirmed: true, ..old(self).token },
                widget: WidgetState { fetching: true, ..old(self).widget },
            }),
            r is None ==> *final(self) == *old(self),
    {
        if !self.token.token_confirmed || self.token.confirmed {
            return None;
        }
        self.confirm_details();
        let app_id = self.token.app_id();
        Some(widget_configs_request(self.token.token.as_str(), app_id.as_str()))
    }

    /// The widget configuration arrived, or its fetch failed; see
    /// [`WidgetState::finish_fetch`].
    pub fn receive_widget_config(&mut self, res: Result<String, String>)
        requires
            old(self).wf(),
            old(self).widget.fetching,
        ensures
            final(self).wf(),
            final(self).token == old(self).token,
            match res {
                Ok(json) => {
                    &&& final(self).widget.error@ == Seq::<char>::empty()
                    &&& final(self).widget.sample_data@ == if dynamic_fields_report(
                        json_text_parse(json@),
                    ).len() == 0 {
                        empty_sample_text()
                    } else {
                        old(self).widget.sample_data@
                    }
                    &&& final(self).widget == (WidgetState {
                        fetching: false,
                        config_json: json,
                        error: final(self).widget.error,
                        sample_data: final(self).widget.sample_data,
                        ..old(self).widget
                    })
                },
                Err(e) => final(self).widget == (WidgetState {
                    fetching: false,
                    error: e,
                    ..old(self).widget
                }),
            },
    {
        self.widget.finish_fetch(res);
    }

    /// The Apply button was clicked: where it is shown, the earlier outcome
    /// is cleared and the answer is the request that sets the identity
    /// profile of the user to the sample data.
    pub fn click_apply(&mut self) -> (r: Option<Request>)
        requires
            old(self).wf(),
        ensures
            final(self).wf(),
            r is Some == old(self).apply_allowed(),
            r matches Some(q) ==> {
                &&& q.method == Method::Patch
                &&& q.url@ == "https://discord.com/api/v9/applications/"@
                    + old(self).token.details_app_id() + "/users/"@
                    + old(self).token.details_owner_id() + "/identities/0/profile"@
                &&& q.content_type matches Some(c) && c@ == "application/json"@
                &&& q.body matches Some(b) && b@ == old(self).widget.sample_data@
                &&& sent_to_api(q, old(self).token.token@)
            },
            r is Some ==> *final(self) == (AppState {
                token: old(self).token,
                widget: WidgetState {
                    applying: true,
                    apply_success: None,
                    apply_error: None,
                    ..old(self).widget
                },
            }),
            r is None ==> *final(self) == *old(self),
    {
        if !self.token.token_confirmed || self.widget.config_json.as_str().is_empty()
            || self.widget.applying || !self.widget.can_apply() {
            return None;
        }
        self.widget.begin_apply();
        let app_id = self.token.app_id();
        let user_id = self.token.owner_id();
        Some(
            identity_profile_request(
                self.token.token.as_str(),
                app_id.as_str(),
                user_id.as_str(),
                self.widget.sample_data.clone(),
            ),
        )
    }

    /// The apply request ended; see [`WidgetState::finish_apply`].
    pub fn receive_apply(&mut self, res: Result<String, String>)
        requires
            old(self).wf(),
            old(self).widget.applying,
        ensures
            final(self).wf(),
            final(self).token == old(self).token,
            final(self).widget == match res {
                Ok(m) => (WidgetState {
                    applying: false,
                    apply_success: Some(m),
                    apply_error: None,
                    ..old(self).widget
                }),
                Err(e) => (WidgetState {
                    applying: false,
                    apply_success: None,
                    apply_error: Some(e),
                    ..old(self).widget
                }),
            },
    {
        self.widget.finish_apply(res);
    }

    /// The Publish button was clicked: where it is shown, the earlier
    /// outcome is cleared and the answer is the request that publishes the
    /// configuration.
    pub fn click_publish(&mut self) -> (r: Option<Request>)
        requires
            old(self).wf(),
        ensures
            final(self).wf(),
            match old(self).publish_target() {
                Some(id) => {
                    &&& r matches Some(q) && plain_request(
                        q,
                        Method::Post,
                        "https://discord.com/api/v10/applications/"@
                            + old(self).token.details_app_id() + "/widget-configs/"@ + id
                            + "/publish"@,
                        old(self).token.token@,
                    ) && sent_to_api(q, old(self).token.token@)
                    &&& *final(self) == (AppState {
                        token: old(self).token,
                        widget: WidgetState {
                            publishing: true,
                            publish_success: None,
                            publish_error: None,
                            ..old(self).widget
                        },
                    })
                },
                None => r is None && *final(self) == *old(self),
            },
    {
        if !self.token.token_confirmed || self.widget.config_json.as_str().is_empty()
            || self.widget.publishing {
            return None;
        }
        match get_widget_config_info(self.widget.config_json.as_str()) {
            Some((id, status)) => {
                if is_draft_status(status.as_str()) {
                    self.widget.begin_publish();
                    let app_id = self.token.app_id();
                    Some(publish_request(self.token.token.as_str(), app_id.as_str(), id.as_str()))
                } else {
                    None
                }
            },
            None => None,
        }
    }

    /// The publish request ended; see [`WidgetState::finish_publish`].
    pub fn receive_publish(&mut self, res: Result<String, String>)
        requires
            old(self).wf(),
            old(self).widget.publishing,
        ensures
            final(self).wf(),
            final(self).token == old(self).token,
            final(self).widget == match res {
                Ok(m) => (WidgetState {
                    publishing: false,
                    publish_success: Some(m),
                    publish_error: None,
                    ..old(self).widget
                }),
                Err(e) => (WidgetState {
                    publishing: false,
                    publish_success: None,
                    publish_error: Some(e),
                    ..old(self).widget
                }),
            },
    {
        self.widget.finish_publish(res);
    }

    /// The Reset button was clicked: the app is back in its start state.
    pub fn reset(&mut self)
        ensures
            final(self).is_start_state(),
            final(self).wf(),
    {
        *self = AppState::default();
    }
}

} // verus!
