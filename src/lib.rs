//! Verified core of a light client's foreign-function bridge: the JSON
//! texts handed across the boundary, the message-list and status queries,
//! the decisions of a transaction submission and the step of the callback
//! relay.
mod json;
mod query;
mod relay;
mod status;
mod submit;

pub use json::{
    json_escape,
    json_quote,
    is_json,
    decimal_text,
    escape_char,
    hex_digit,
};
pub use query::{
    error_response,
    message_list_response,
    get_confidence_message_list,
    get_data_verified_message_list,
    get_header_verified_message_list,
    EMPTY_MESSAGE_LIST,
    INVALID_STORED_LIST,
    error_text,
    message_list_text,
    stored_view,
    lemma_no_messages_gives_empty_list,
    lemma_error_envelope_round_trip,
};
pub use submit::{
    SubmitEvent,
    SubmitAction,
    SECRET_KEY_ERROR,
    SUBMIT_FAILED,
    hex_bytes,
    hash_text,
    failure_description,
    failure_text,
    is_hex_char,
    is_hash_text,
    hash_response,
    failure_response,
    submit_transaction,
    lemma_hash_reply_decodes,
    lemma_failure_reply_is_no_hash,
};
pub use relay::{
    Topic,
    RelayEvent,
    RelayAction,
    topic_name,
    topic_text,
    event_stops,
    event_fails,
    relay_trace,
    failure_count,
    call_callbacks,
    lemma_relay_keeps_listening,
    lemma_relay_drops_only_failures,
    lemma_relay_stops_at_close,
};
pub use status::{
    Config,
    ConnectedNode,
    BlockCounters,
    optional_number_text,
    range_text,
    network_text,
    status_text,
    get_startus_v2,
    status_response,
    lemma_status_idempotent,
    lemma_status_round_trip,
};
