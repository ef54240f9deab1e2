//! Checks and edits the JSON documents of a Discord widget identity: the
//! widget configuration and the sample data applied to it, and the state of
//! the app that walks a user through applying them.

pub mod json;
pub mod text;
pub mod fields;
pub mod sample;
pub mod update;
pub mod validator;
pub mod discord;
pub mod state;

pub use validator::{
    DynamicFieldSpec, validate_widget_config, validate_sample_data, extract_dynamic_fields,
    get_field_value, get_widget_config_info, validate_widget_config_parsed,
    validate_sample_data_parsed, extract_dynamic_fields_parsed, get_field_value_parsed,
    get_widget_config_info_parsed,
};
pub use update::{update_sample_data, update_sample_value};
pub use state::{ApplicationDetails, AppState, TokenState, WidgetState};
pub use json::parse_json;
pub mod laws;
