//! Parsing of magnet links (`magnet:?key=value&...`) into typed fields.

mod error;
mod field;
mod text;
mod topic;
mod uri;

pub use error::{Error, ErrorView};
pub use text::{
    all_digits, chars_of, digit_value, digits_value, has_prefix, is_digit, parse_u64, parsed_u64,
    split_on, without_plus,
};
pub use topic::{hash_topic, topic_of, Topic, TopicView};
pub use field::{
    field_of, lemma_extension_keys, lemma_plain_keys_keep_value, plain_value, Field, FieldView,
};
pub use uri::{
    decoded_query, fields_of, fields_view, first_topic, lemma_fields_follow_pairs,
    lemma_scheme_required, magnet_of, pairs_view, MagnetUri,
};
