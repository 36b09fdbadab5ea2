//! The bodies of error answers.

use vstd::prelude::*;

use crate::json::{put, Json, JsonSpec};
use crate::json_codec::{
    json_parse, json_text, rereadable, write_json, RAW_TEXT_KEY, READ_DEPTH,
};

verus! {

/// The body that reports a message.
pub open spec fn error_of(message: Seq<char>) -> JsonSpec {
    JsonSpec::Object(
        map!["error"@ => JsonSpec::Object(map!["message"@ => JsonSpec::Str(message)])],
    )
}

/// The body that reports a message about an invalid request.
pub open spec fn request_error_of(message: Seq<char>) -> JsonSpec {
    JsonSpec::Object(
        map![
            "error"@ => JsonSpec::Object(
                map![
                    "message"@ => JsonSpec::Str(message),
                    "type"@ => JsonSpec::Str("invalid_request_error"@),
                ],
            ),
        ],
    )
}

/// The body that reports a message.
pub fn error_body(message: &str) -> (r: Json)
    ensures
        r@ == error_of(message@),
{
    let mut detail: Vec<(String, Json)> = Vec::new();
    put(&mut detail, "message", Json::text(message));
    let mut body: Vec<(String, Json)> = Vec::new();
    put(&mut body, "error", Json::Object(detail));
    Json::Object(body)
}

/// The body that reports a message about an invalid request.
pub fn request_error_body(message: &str) -> (r: Json)
    ensures
        r@ == request_error_of(message@),
{
    let mut detail: Vec<(String, Json)> = Vec::new();
    put(&mut detail, "message", Json::text(message));
    put(&mut detail, "type", Json::text("invalid_request_error"));
    let mut body: Vec<(String, Json)> = Vec::new();
    put(&mut body, "error", Json::Object(detail));
    Json::Object(body)
}

/// The text of the body that reports a message.
pub fn plain_error_text(message: &str) -> (r: String)
    ensures
        r@ == json_text(error_of(message@)),
        json_parse(r@) == Some(error_of(message@)),
{
    let body = error_body(message);
    proof {
        lemma_error_rereads(message@);
    }
    write_json(&body)
}

/// The body that reports a message can be read back from its text.
pub proof fn lemma_error_rereads(message: Seq<char>)
    ensures
        rereadable(error_of(message), READ_DEPTH as nat),
{
    reveal_strlit("message");
    reveal_strlit("error");
    reveal_strlit("$serde_json::private::RawValue");
    assert("message"@.len() == 7 && "error"@.len() == 5 && RAW_TEXT_KEY@.len() == 30);
    let detail = JsonSpec::Object(map!["message"@ => JsonSpec::Str(message)]);
    assert(rereadable(JsonSpec::Str(message), 125));
    assert(rereadable(detail, 126));
    assert(rereadable(error_of(message), 127));
}

/// An error tells its message where clients look for it, and one about an invalid request
/// tells its type too.
pub proof fn law_errors_tell_their_message(message: Seq<char>)
    ensures
        error_of(message).get2("error"@, "message"@) == Some(JsonSpec::Str(message)),
        request_error_of(message).get2("error"@, "message"@) == Some(JsonSpec::Str(message)),
        request_error_of(message).get2("error"@, "type"@) == Some(
            JsonSpec::Str("invalid_request_error"@),
        ),
{
    reveal_strlit("message");
    reveal_strlit("type");
    assert("message"@.len() == 7 && "type"@.len() == 4);
}

} // verus!
