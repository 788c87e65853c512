//! The remote source: what is asked of it, and how its answers are read.
//!
//! The requests and the reading of the answers are here; sending a request
//! and receiving the answer is left to the caller.

use crate::json::{Json, JsonView};
use vstd::prelude::*;

verus! {

/// A request to the remote source: the arguments, wrapped as the source
/// expects them.
pub open spec fn request(arguments: JsonView) -> JsonView {
    JsonView::object().with("Context"@, JsonView::object().with("argv"@, arguments))
}

/// One condition of a search: the field equals the value.
pub open spec fn criterion(field: Seq<char>, value: Seq<char>) -> JsonView {
    JsonView::object().with("field"@, JsonView::Str(field)).with(
        "op"@,
        JsonView::Str("Equals"@),
    ).with("values"@, JsonView::Array(seq![JsonView::Str(value)]))
}

/// The search for the pending items: the rows of the sheet that are
/// confirmed as ready to run and not yet marked as run.
pub open spec fn search_payload() -> JsonView {
    request(
        JsonView::object().with("action"@, JsonView::Str("search"@)).with(
            "sheet"@,
            JsonView::Str("数据表"@),
        ).with(
            "filter"@,
            JsonView::object().with("mode"@, JsonView::Str("AND"@)).with(
                "criteria"@,
                JsonView::Array(
                    seq![
                        criterion("设计师确认是否已完整填写可运行"@, "是"@),
                        criterion("是否运行完成"@, ""@),
                    ],
                ),
            ),
        ),
    )
}

/// The update that marks one row as run: `res` goes into the row's
/// completion field.
pub open spec fn update_payload(target_id: Seq<char>, res: Seq<char>) -> JsonView {
    request(
        JsonView::object().with("action"@, JsonView::Str("update"@)).with(
            "sheet"@,
            JsonView::Str("数据表"@),
        ).with(
            "records"@,
            JsonView::Array(
                seq![
                    JsonView::object().with(
                        "fields"@,
                        JsonView::object().with("是否运行完成"@, JsonView::Str(res)),
                    ).with("id"@, JsonView::Str(target_id)),
                ],
            ),
        ),
    )
}

/// An answer that succeeded, with its payload under `key`.
pub open spec fn success(key: Seq<char>, payload: JsonView) -> JsonView {
    JsonView::object().with("status"@, JsonView::Str("Success"@)).with(key, payload)
}

/// An answer that failed, with the reason.
pub open spec fn failure(message: Seq<char>) -> JsonView {
    JsonView::object().with("status"@, JsonView::Str("Error"@)).with(
        "message"@,
        JsonView::Str(message),
    )
}

/// The member under `key` of the member under `outer`; `Null` where either
/// is missing.
pub open spec fn nested(v: JsonView, outer: Seq<char>, key: Seq<char>) -> JsonView {
    match v.get(outer) {
        Some(inner) => match inner.get(key) {
            Some(found) => found,
            None => JsonView::Null,
        },
        None => JsonView::Null,
    }
}

/// What a search answer is handed on as. An answer with a `data` member
/// succeeded, and what is handed on is the list below it, under
/// `result.data`; an answer without one failed.
pub open spec fn fetch_envelope(response: JsonView) -> JsonView {
    match response.get("data"@) {
        Some(data) => success("data"@, nested(data, "result"@, "data"@)),
        None => failure("数据获取失败"@),
    }
}

/// What an update answer is handed on as: it succeeded where it has a
/// `status` member.
pub open spec fn update_envelope(response: JsonView) -> JsonView {
    match response.get("status"@) {
        Some(_) => success("message"@, JsonView::Str("更新成功"@)),
        None => failure("更新失败"@),
    }
}

/// Wraps the arguments of a request.
fn wrap_request(arguments: Json) -> (j: Json)
    ensures
        j@ == request(arguments@),
{
    Json::object().with("Context", Json::object().with("argv", arguments))
}

/// One condition of a search.
fn equals(field: &str, value: &str) -> (j: Json)
    ensures
        j@ == criterion(field@, value@),
{
    Json::object().with("field", Json::text(field)).with("op", Json::text("Equals")).with(
        "values",
        Json::single(Json::text(value)),
    )
}

/// The body of the request that searches for the pending items.
pub fn search_request() -> (j: Json)
    ensures
        j@ == search_payload(),
{
    let criteria = Json::pair(equals("设计师确认是否已完整填写可运行", "是"), equals("是否运行完成", ""));
    let filter = Json::object().with("mode", Json::text("AND")).with("criteria", criteria);
    wrap_request(
        Json::object().with("action", Json::text("search")).with("sheet", Json::text("数据表")).with(
            "filter",
            filter,
        ),
    )
}

/// The body of the request that marks the row `target_id` with `res`.
pub fn update_request(target_id: &str, res: &str) -> (j: Json)
    ensures
        j@ == update_payload(target_id@, res@),
{
    let record = Json::object().with(
        "fields",
        Json::object().with("是否运行完成", Json::text(res)),
    ).with("id", Json::text(target_id));
    wrap_request(
        Json::object().with("action", Json::text("update")).with("sheet", Json::text("数据表")).with(
            "records",
            Json::single(record),
        ),
    )
}

/// Reads the answer to a search; see [`fetch_envelope`].
pub fn fetch_wps_data(response: Json) -> (envelope: Json)
    ensures
        envelope@ == fetch_envelope(response@),
{
    match response.take("data") {
        Some(data) => {
            let listed = match data.take("result") {
                Some(result) => match result.take("data") {
                    Some(found) => found,
                    None => Json::Null,
                },
                None => Json::Null,
            };
            Json::object().with("status", Json::text("Success")).with("data", listed)
        },
        None => Json::object().with("status", Json::text("Error")).with(
            "message",
            Json::text("数据获取失败"),
        ),
    }
}

/// Reads the answer to an update; see [`update_envelope`].
pub fn update_wps_date(response: &Json) -> (envelope: Json)
    ensures
        envelope@ == update_envelope(response@),
{
    match response.get("status") {
        Some(_) => Json::object().with("status", Json::text("Success")).with(
            "message",
            Json::text("更新成功"),
        ),
        None => Json::object().with("status", Json::text("Error")).with(
            "message",
            Json::text("更新失败"),
        ),
    }
}

} // verus!
