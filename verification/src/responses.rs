//! Response envelopes and pagination parameters.

use vstd::prelude::*;

verus! {

/// A plain success acknowledgement.
pub struct SuccessResponse {
    pub success: bool,
    pub message: String,
}

impl SuccessResponse {
    /// Wraps a message in a success envelope.
    pub fn new(message: &str) -> (r: SuccessResponse)
        ensures
            r.success == true,
            r.message@ == message@,
    {
        SuccessResponse { success: true, message: message.to_owned() }
    }
}

/// A success envelope around one payload.
pub struct DataResponse<T> {
    pub success: bool,
    pub data: T,
}

impl<T> DataResponse<T> {
    /// Wraps a payload in a success envelope.
    pub fn new(data: T) -> (r: DataResponse<T>)
        ensures
            r.success == true,
            r.data == data,
    {
        DataResponse { success: true, data }
    }
}

/// Where a page sits in the whole listing.
pub struct PaginationMeta {
    pub total: i64,
    pub limit: i32,
    pub offset: i32,
    pub has_more: bool,
}

impl PaginationMeta {
    /// Computes whether more records follow the page.
    pub fn new(total: i64, limit: i32, offset: i32) -> (r: PaginationMeta)
        ensures
            r.total == total,
            r.limit == limit,
            r.offset == offset,
            r.has_more == (offset + limit < total),
    {
        PaginationMeta { total, limit, offset, has_more: (offset as i64) + (limit as i64) < total }
    }
}

/// A success envelope around one page of records.
pub struct PaginatedResponse<T> {
    pub success: bool,
    pub data: Vec<T>,
    pub pagination: PaginationMeta,
}

impl<T> PaginatedResponse<T> {
    /// Wraps a page of records with its pagination.
    pub fn new(data: Vec<T>, total: i64, limit: i32, offset: i32) -> (r: PaginatedResponse<T>)
        ensures
            r.success == true,
            r.data@ == data@,
            r.pagination.total == total,
            r.pagination.limit == limit,
            r.pagination.offset == offset,
            r.pagination.has_more == (offset + limit < total),
    {
        PaginatedResponse { success: true, data, pagination: PaginationMeta::new(total, limit, offset) }
    }
}

/// The default page size.
pub fn default_limit() -> (r: i32)
    ensures
        r == 20,
{
    20
}

/// Client-supplied paging, before validation.
pub struct PaginationParams {
    pub limit: i32,
    pub offset: i32,
}

impl Default for PaginationParams {
    /// Twenty records from the start.
    fn default() -> (r: PaginationParams)
        ensures
            r.limit == 20,
            r.offset == 0,
    {
        PaginationParams { limit: 20, offset: 0 }
    }
}

impl PaginationParams {
    /// Clamps the page size to between one and one hundred and the
    /// offset to at least zero.
    pub fn validated(self) -> (r: PaginationParams)
        ensures
            r.limit == if self.limit < 1 {
                1int
            } else if self.limit > 100 {
                100int
            } else {
                self.limit as int
            },
            r.offset == if self.offset < 0 {
                0int
            } else {
                self.offset as int
            },
    {
        let limit = if self.limit < 1 {
            1
        } else if self.limit > 100 {
            100
        } else {
            self.limit
        };
        let offset = if self.offset < 0 {
            0
        } else {
            self.offset
        };
        PaginationParams { limit, offset }
    }
}

} // verus!
