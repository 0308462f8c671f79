//! The envelope of every answer: a code, a message, the data and the page
//! information of list endpoints.

use vstd::prelude::*;

verus! {

/// Page and filter parameters of list endpoints; `total` is filled in answers.
#[derive(Debug, Clone)]
pub struct QueryParams {
    pub offset: Option<u64>,
    pub limit: Option<u64>,
    pub page: Option<u64>,
    pub total: Option<usize>,
    pub filter: Option<String>,
}

impl QueryParams {
    /// The parameters echoed in an answer, with the number of matching rows.
    pub fn with_total(self, total: usize) -> (r: QueryParams)
        ensures
            r.offset == self.offset,
            r.limit == self.limit,
            r.page == self.page,
            r.total == Some(total),
            r.filter == self.filter,
    {
        QueryParams { total: Some(total), ..self }
    }
}

/// The answer of a handler.
#[derive(Debug)]
pub struct UniResponse<T> {
    pub code: i32,
    pub message: String,
    pub data: Option<T>,
    pub meta: Option<QueryParams>,
}

impl<T> UniResponse<T> {
    /// A successful answer carrying `data`.
    pub fn ok(data: Option<T>) -> (r: Self)
        ensures
            r.code == 0,
            r.message@ == "OK"@,
            r.data == data,
            r.meta.is_none(),
    {
        UniResponse { code: 0, message: String::from_str("OK"), data, meta: None }
    }

    /// A successful answer carrying `data` and page information.
    pub fn ok_meta(data: Option<T>, meta: Option<QueryParams>) -> (r: Self)
        ensures
            r.code == 0,
            r.message@ == "OK"@,
            r.data == data,
            r.meta == meta,
    {
        UniResponse { code: 0, message: String::from_str("OK"), data, meta }
    }

    /// A successful answer without data.
    pub fn ok_none() -> (r: Self)
        ensures
            r.code == 0,
            r.message@ == "OK"@,
            r.data.is_none(),
            r.meta.is_none(),
    {
        UniResponse { code: 0, message: String::from_str("OK"), data: None, meta: None }
    }

    /// A failed answer with the given code and message.
    pub fn err(code: i32, message: String) -> (r: Self)
        ensures
            r.code == code,
            r.message == message,
            r.data.is_none(),
            r.meta.is_none(),
    {
        UniResponse { code, message, data: None, meta: None }
    }
}

} // verus!
