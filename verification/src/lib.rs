//! Request validation: error values, built-in validators, per-field rule
//! sets, a builder that checks a whole form, and a pipe that accepts a
//! request body only when it parses and validates. Each function states
//! what it returns, and the laws that relate them are proved in `laws`.

mod errors;
mod form;
mod laws;
mod pipe;
mod rules;
mod text;
mod traits;
mod validators;

pub use errors::{
    error_line, error_view, errors_for_field, errors_text, opt_view, outcome, verdict, views,
    ErrorView, ValidationError, ValidationErrors,
};
pub use form::{distinct_names, entries_map, lemma_form_finite, lookup, FormData};
pub use laws::{
    law_absent_optional_field_is_skipped, law_added_check_reports_last,
    law_built_in_errors_name_their_field, law_email_is_never_empty,
    law_field_adds_its_errors_last, law_field_errors_after_add,
    law_form_insert, law_form_passes_exactly_when_every_field_passes,
    law_length_bounds_count_characters,
    law_letters_and_digits_are_alphanumeric, law_missing_required_field_fails,
    law_missing_required_field_is_validated_as_empty, law_present_value_is_checked,
    law_rules_pass_exactly_when_every_check_passes, law_unchecked_entry_changes_nothing,
    law_alpha_is_ascii_letters, law_alphanumeric_is_alpha_or_numeric_per_character,
    law_alphanumeric_is_ascii_letters_and_digits, law_email_accepts_only_plain_addresses,
    law_email_accepts_well_formed_addresses, law_email_label_has_no_upper_bound,
    law_not_empty_looks_past_white_space, law_numeric_is_ascii_digits,
    law_pipe_answer_follows_validation, law_pipe_refuses_failing_values,
    law_url_refuses_only_controls_and_spaces, law_uuid_accepts_only_uuids,
    law_uuid_accepts_versioned_uuids, law_uuid_ignores_case, reported, same_up_to_case,
    then_outcome,
};
pub use pipe::{decision, validated_answer, PipeRejection, ValidationPipe};
pub use rules::{
    all_built_in, as_result, builder_allows, built_in, built_in_lists, built_in_outcomes,
    closure_allows, errors_outcome, failures, fits, flatten, outcomes_fit, rule_verdict,
    rules_allow, set_fits, sets_built_in, value_for_spec, custom_allows, CustomValidator, Rule,
    ValidationBuilder, ValidationRules,
};
pub use text::{
    all_in, ascii_digit, ascii_letter, class_has, control_or_space, free_of_controls,
    has_visible, hex_digit, white_space, CharClass,
};
pub use traits::{Validate, ValidationContext};
pub use validators::{
    alpha_verdict, alphanumeric_verdict, email_accepts, email_split, email_verdict,
    matches_pattern, max_length_verdict, min_length_verdict, nonempty_run, not_empty_verdict,
    numeric_verdict, parsed_url_scheme, pattern_verdict, regex_compiles, regex_finds,
    url_accepts, url_verdict, uuid_accepts, uuid_groups, uuid_layout, uuid_verdict, InRange, InvalidPattern, IsAlpha,
    IsAlphanumeric, IsEmail, IsNumeric, IsPositive, IsUrl, IsUuid, Matches, Max, MaxLength, Min,
    MinLength, NotEmpty,
};
