//! The uniform response envelope.
//!
//! Every handler answers with the same shape — a code, a message, and
//! optional data — so a caller cannot tell rejection causes apart by
//! structure. Code 0 is success, code 1 failure; the message is
//! operator-facing text, not security material. Message-only envelopes
//! carry the literal text "None" in the data slot: that placeholder is the
//! backend's wire convention, which clients already parse.

use vstd::prelude::*;

verus! {

/// The envelope of every response.
pub struct BaseResponse<T> {
    pub code: i32,
    pub msg: String,
    pub data: Option<T>,
}

/// The envelope of a paged response.
pub struct ResponsePage<T> {
    pub code: i32,
    pub msg: String,
    pub total: u64,
    pub success: bool,
    pub data: Option<T>,
}

/// A bare success.
pub fn ok_result() -> (r: BaseResponse<String>)
    ensures
        r.code == 0,
        r.msg@ == "操作成功"@,
        r.data is Some && r.data->0@ == "None"@,
{
    ok_result_msg("操作成功")
}

/// A success carrying only a message.
pub fn ok_result_msg(msg: &str) -> (r: BaseResponse<String>)
    ensures
        r.code == 0,
        r.msg@ == msg@,
        r.data is Some && r.data->0@ == "None"@,
{
    BaseResponse { code: 0, msg: msg.to_owned(), data: Some("None".to_owned()) }
}

/// A success carrying data.
pub fn ok_result_data<T>(data: T) -> (r: BaseResponse<T>)
    ensures
        r.code == 0,
        r.msg@ == "操作成功"@,
        r.data == Some(data),
{
    BaseResponse { code: 0, msg: "操作成功".to_owned(), data: Some(data) }
}

/// A failure carrying only a message.
pub fn err_result_msg(msg: &str) -> (r: BaseResponse<String>)
    ensures
        r.code == 1,
        r.msg@ == msg@,
        r.data is Some && r.data->0@ == "None"@,
{
    BaseResponse { code: 1, msg: msg.to_owned(), data: Some("None".to_owned()) }
}

/// The envelope for the outcome of a store write: success when the write
/// succeeded, else the failure with the store's message.
pub fn handle_result<T>(result: Result<T, String>) -> (r: BaseResponse<String>)
    ensures
        result is Ok ==> r.code == 0 && r.msg@ == "操作成功"@,
        result is Err ==> r.code == 1 && r.msg@ == result->Err_0@,
        r.data is Some && r.data->0@ == "None"@,
{
    match result {
        Ok(_) => ok_result(),
        Err(msg) => err_result_msg(msg.as_str()),
    }
}

/// A success carrying one page of data and the total row count.
pub fn ok_result_page<T>(data: T, total: u64) -> (r: ResponsePage<T>)
    ensures
        r.code == 0,
        r.msg@ == "操作成功"@,
        r.success,
        r.total == total,
        r.data == Some(data),
{
    ResponsePage { code: 0, msg: "操作成功".to_owned(), total, success: true, data: Some(data) }
}

/// A failed page query.
pub fn err_result_page<T>(data: T, msg: &str) -> (r: ResponsePage<T>)
    ensures
        r.code == 1,
        r.msg@ == msg@,
        !r.success,
        r.total == 0,
        r.data == Some(data),
{
    ResponsePage { code: 1, msg: msg.to_owned(), total: 0, success: false, data: Some(data) }
}

} // verus!
