//! Validation of crontab lines: a line grammar over bytes, and a tree of
//! diagnostics that says why a line was refused and where.

pub mod bytes;
pub mod error;
pub mod field;
pub mod line;
pub mod number;
pub mod render;
pub mod text;
pub mod theorems;
pub mod userdb;

pub use error::{CrontabSyntaxError, Diagnostic, ParseOutcome};
pub use field::{
    day_of_month_value_parser, day_of_week_value_parser, hour_value_parser, minute_value_parser,
    month_value_parser, parse_enum, parse_field, parse_period, parse_range_or_value, parse_value,
    parse_within_bounds, FieldKind,
};
pub use line::{
    is_valid_username, parse_command_line, parse_comment, parse_crontab, parse_empty_line,
    parse_environnment_variable, parse_field_separator, parse_schedule, parse_user,
    CrontabParserOptions,
};
pub use render::{format_error, format_position, walk_errors};
pub use userdb::username_of_record;
