//! Forward pagination over connections: opaque cursors that encode row
//! indexes, validated page parameters, and the metadata of a page.

use crate::validation::{Valid, Validate, ValidationError, ValidationErrors};
use vstd::prelude::*;
use vstd::utf8::encode_utf8;

verus! {

broadcast use vstd::std_specs::vec::group_vec_axioms;

/// The big-endian two's-complement bytes of a 32-bit integer.
pub open spec fn be_bytes(i: i32) -> Seq<u8> {
    let u: int = if i < 0 { i + 0x1_0000_0000 } else { i as int };
    seq![
        (u / 0x100_0000) as u8,
        ((u / 0x1_0000) % 0x100) as u8,
        ((u / 0x100) % 0x100) as u8,
        (u % 0x100) as u8,
    ]
}

/// The 32-bit integer whose big-endian two's-complement bytes are the first
/// four of `b`.
pub open spec fn be_value(b: Seq<u8>) -> int {
    let u: int = b[0] * 0x100_0000 + b[1] * 0x1_0000 + b[2] * 0x100 + b[3];
    if u >= 0x8000_0000 {
        u - 0x1_0000_0000
    } else {
        u
    }
}

proof fn lemma_digits(u: int)
    requires
        0 <= u < 0x1_0000_0000,
    ensures
        0 <= u / 0x100_0000 < 0x100,
        (u / 0x100_0000) * 0x100_0000 + ((u / 0x1_0000) % 0x100) * 0x1_0000 + ((u / 0x100) % 0x100)
            * 0x100 + u % 0x100 == u,
{
    assert(0 <= u / 0x100_0000 < 0x100) by (nonlinear_arith)
        requires
            0 <= u < 0x1_0000_0000,
    ;
    assert((u / 0x100_0000) * 0x100_0000 + ((u / 0x1_0000) % 0x100) * 0x1_0000 + ((u / 0x100)
        % 0x100) * 0x100 + u % 0x100 == u) by (nonlinear_arith)
        requires
            0 <= u < 0x1_0000_0000,
    ;
}

/// Law: reading the bytes of an integer back gives the integer.
pub proof fn lemma_be_roundtrip(i: i32)
    ensures
        be_bytes(i).len() == 4,
        be_value(be_bytes(i)) == i,
{
    let u: int = if i < 0 { i + 0x1_0000_0000 } else { i as int };
    lemma_digits(u);
}

/// The big-endian two's-complement bytes of `i`.
pub fn to_be_bytes(i: i32) -> (b: Vec<u8>)
    ensures
        b@ == be_bytes(i),
{
    let u: u32 = if i < 0 {
        (i as i64 + 0x1_0000_0000i64) as u32
    } else {
        i as u32
    };
    proof {
        lemma_digits(u as int);
    }
    let mut b: Vec<u8> = Vec::new();
    b.push((u / 0x100_0000) as u8);
    b.push(((u / 0x1_0000) % 0x100) as u8);
    b.push(((u / 0x100) % 0x100) as u8);
    b.push((u % 0x100) as u8);
    assert(b@ =~= be_bytes(i));
    b
}

/// The integer whose big-endian two's-complement bytes are `b`.
pub fn from_be_bytes(b: &[u8]) -> (i: i32)
    requires
        b@.len() == 4,
    ensures
        i == be_value(b@),
{
    let u: u32 = (b[0] as u32) * 0x100_0000 + (b[1] as u32) * 0x1_0000 + (b[2] as u32) * 0x100
        + b[3] as u32;
    if u >= 0x8000_0000 {
        (u as i64 - 0x1_0000_0000i64) as i32
    } else {
        u as i32
    }
}


/// The error type of `base64::decode`.
#[verifier::external_type_specification]
#[verifier::external_body]
pub struct ExDecodeError(base64::DecodeError);

/// What `base64::encode` (standard alphabet, with padding) returns for the
/// given bytes.
pub uninterp spec fn base64_encoding(bytes: Seq<u8>) -> Seq<char>;

/// What `base64::decode` (standard alphabet; trailing padding may be left
/// out) returns for the given text: the decoded bytes, or `None` where it
/// fails.
pub uninterp spec fn base64_decoding(text: Seq<u8>) -> Option<Seq<u8>>;

/// Calls `base64::encode`. Claims: the text is `base64_encoding` of the
/// bytes; it has the documented padded length, four bytes for each started
/// group of three input bytes; and `base64::decode` gives the bytes back from
/// it. Inputs so long that the length computation overflows are left out.
#[verifier::external_body]
fn base64_encode(bytes: &[u8]) -> (text: String)
    requires
        bytes@.len() <= usize::MAX / 4,
    ensures
        text@ == base64_encoding(bytes@),
        encode_utf8(text@).len() == 4 * ((bytes@.len() + 2) / 3),
        base64_decoding(encode_utf8(text@)) == Some(bytes@),
{
    base64::encode(bytes)
}

/// Calls `base64::decode`. Claims: it succeeds exactly where
/// `base64_decoding` of the text is some bytes, and then returns them. Which
/// `DecodeError` comes on failure is left unsaid. Inputs so long that the
/// length computation overflows are left out.
#[verifier::external_body]
fn base64_decode(text: &[u8]) -> (r: Result<Vec<u8>, base64::DecodeError>)
    requires
        text@.len() <= usize::MAX / 2,
    ensures
        r is Ok <==> base64_decoding(text@) is Some,
        r matches Ok(v) ==> base64_decoding(text@) == Some(v@),
{
    base64::decode(text)
}

/// An error that can occur while decoding a base64 string into an integer.
#[derive(Debug)]
pub enum IntDecodeError {
    /// The string isn't valid base64.
    Base64Error(base64::DecodeError),
    /// The string was decoded into bytes, but they aren't exactly the four
    /// bytes of an integer.
    TryFromSliceError,
}

/// An opaque pointer to one row of a connection: the base64 text of the
/// row's index as four big-endian bytes.
#[derive(Clone, Debug, PartialEq, Eq, Hash)]
pub struct Cursor(pub String);

/// The text of the cursor that points to a row index.
pub open spec fn cursor_text(index: i32) -> Seq<char> {
    base64_encoding(be_bytes(index))
}

/// Is the UTF-8 form of a cursor's text short enough to be decoded?
pub open spec fn decodable_len(text: Seq<char>) -> bool {
    encode_utf8(text).len() <= usize::MAX / 2
}

/// The row index that a cursor's text points to, if it is one.
pub open spec fn cursor_index(text: Seq<char>) -> Option<i32> {
    if !decodable_len(text) {
        None
    } else {
        match base64_decoding(encode_utf8(text)) {
            Some(b) => if b.len() == 4 {
                Some(be_value(b) as i32)
            } else {
                None
            },
            None => None,
        }
    }
}

impl Cursor {
    /// The cursor that points to a row index.
    pub fn from_index(index: i32) -> (c: Cursor)
        ensures
            c.0@ == cursor_text(index),
            cursor_index(c.0@) == Some(index),
    {
        let bytes = to_be_bytes(index);
        let text = base64_encode(bytes.as_slice());
        proof {
            lemma_be_roundtrip(index);
        }
        Cursor(text)
    }

    /// The row index that this cursor points to.
    pub fn to_index(&self) -> (r: Result<i32, IntDecodeError>)
        ensures
            r is Ok <==> cursor_index(self.0@) is Some,
            r matches Ok(i) ==> cursor_index(self.0@) == Some(i),
            r matches Err(IntDecodeError::Base64Error(_)) <==> (decodable_len(self.0@)
                && base64_decoding(encode_utf8(self.0@)) is None),
    {
        let text = self.0.as_str().as_bytes();
        if text.len() > usize::MAX / 2 {
            return Err(IntDecodeError::TryFromSliceError);
        }
        match base64_decode(text) {
            Err(e) => Err(IntDecodeError::Base64Error(e)),
            Ok(bytes) => {
                if bytes.len() == 4 {
                    Ok(from_be_bytes(bytes.as_slice()))
                } else {
                    Err(IntDecodeError::TryFromSliceError)
                }
            },
        }
    }
}

/// Does the cursor's text point to a row, with an index that is not
/// negative?
pub open spec fn cursor_valid(text: Seq<char>) -> bool {
    cursor_index(text) matches Some(i) && i >= 0
}

/// The rule violations of page parameters: `first` below 0, and `after`
/// that is not a valid cursor, in that order.
pub open spec fn page_params_errors(first: Option<i32>, after: Option<Cursor>) -> Seq<ValidationError> {
    let first_errors = if first matches Some(f) && f < 0 {
        seq![ValidationError::Range("first")]
    } else {
        Seq::empty()
    };
    let after_errors = if after matches Some(c) && !cursor_valid(c.0@) {
        seq![ValidationError::Cursor("after")]
    } else {
        Seq::empty()
    };
    first_errors + after_errors
}

/// The pagination parameters of a connection: at most `first` rows, starting
/// after the row that `after` points to. Only forward pagination is
/// supported.
#[derive(Clone, Debug)]
pub struct ConnectionPageParams {
    first: Option<i32>,
    after: Option<Cursor>,
}

impl Validate for ConnectionPageParams {
    closed spec fn validation_errors(&self) -> Seq<ValidationError> {
        page_params_errors(self.first, self.after)
    }

    fn validate(&self) -> (r: Result<(), ValidationErrors>) {
        let mut errors: Vec<ValidationError> = Vec::new();
        if let Some(f) = self.first {
            if f < 0 {
                errors.push(ValidationError::Range("first"));
            }
        }
        let ghost first_errors = errors@;
        if let Some(c) = &self.after {
            let ok = match c.to_index() {
                Ok(index) => index >= 0,
                Err(_) => false,
            };
            if !ok {
                errors.push(ValidationError::Cursor("after"));
            }
        }
        assert(errors@ =~= page_params_errors(self.first, self.after));
        if errors.len() == 0 {
            Ok(())
        } else {
            Err(ValidationErrors { errors })
        }
    }
}


/// The number of rows that page parameters skip: none without `after`,
/// else all up to and including the row that `after` points to.
pub open spec fn page_offset(after: Option<Cursor>) -> int {
    match after {
        None => 0,
        Some(c) => match cursor_index(c.0@) {
            Some(i) => i + 1,
            None => 0,
        },
    }
}

impl ConnectionPageParams {
    /// The `first` argument.
    pub closed spec fn first_arg(self) -> Option<i32> {
        self.first
    }

    /// The `after` argument.
    pub closed spec fn after_arg(self) -> Option<Cursor> {
        self.after
    }

    /// Validates pagination parameters: `first`, where given, must not be
    /// negative, and `after`, where given, must point to a row index that is
    /// not negative.
    pub fn new(first: Option<i32>, after: Option<Cursor>) -> (r: Result<Valid<Self>, ValidationErrors>)
        ensures
            match r {
                Ok(v) => {
                    &&& v.value().first_arg() == first
                    &&& v.value().after_arg() == after
                    &&& page_params_errors(first, after).len() == 0
                },
                Err(e) => e.errors@ == page_params_errors(first, after) && e.errors@.len() > 0,
            },
    {
        Valid::validate(ConnectionPageParams { first, after })
    }

    /// The number of rows to skip before the first returned row; can be used
    /// directly in a SQL `OFFSET` clause.
    pub fn offset(&self) -> (r: i32)
        requires
            self.validation_errors().len() == 0,
            page_offset(self.after_arg()) <= i32::MAX,
        ensures
            r == page_offset(self.after_arg()),
    {
        match &self.after {
            None => 0,
            Some(cursor) => match cursor.to_index() {
                Ok(index) => index + 1,
                Err(_) => 0,
            },
        }
    }

    /// The maximum number of rows to return; `None` returns as many rows as
    /// there are.
    pub fn limit(&self) -> (r: Option<i32>)
        ensures
            r == self.first_arg(),
    {
        self.first
    }
}

/// Metadata of one page of a connection.
#[derive(Clone, Debug, PartialEq)]
pub struct PageInfo {
    pub start_cursor: Option<Cursor>,
    pub end_cursor: Option<Cursor>,
    pub has_previous_page: bool,
    pub has_next_page: bool,
}

/// The index of the last row of a page that starts at `offset`, holds at most
/// `limit` rows and is cut from `total` rows.
pub open spec fn page_end(offset: int, limit: Option<i32>, total: int) -> int {
    match limit {
        None => total - 1,
        Some(l) => if offset + l < total {
            offset + l - 1
        } else {
            total - 1
        },
    }
}

/// Does the page metadata describe the rows `start` through `end` out of
/// `total`: cursors to the first and last row unless that range is empty, a
/// previous page if the range starts after row 0 of a non-empty total, and a
/// next page if rows follow the range?
pub open spec fn page_info_describes(info: PageInfo, start: int, end: int, total: int) -> bool {
    &&& if end < start {
        info.start_cursor is None && info.end_cursor is None
    } else {
        &&& info.start_cursor matches Some(c) && c.0@ == cursor_text(start as i32)
        &&& info.end_cursor matches Some(c) && c.0@ == cursor_text(end as i32)
    }
    &&& info.has_previous_page == (0 < start && 0 < total)
    &&& info.has_next_page == (end + 1 < total)
}

/// Are the page parameters and total such that computing the page metadata
/// stays within 32-bit integers?
pub open spec fn page_in_range(params: ConnectionPageParams, total_count: i32) -> bool {
    &&& page_offset(params.after_arg()) <= i32::MAX
    &&& params.first_arg() matches Some(l) ==> page_offset(params.after_arg()) + l <= i32::MAX
    &&& total_count > i32::MIN
}

impl PageInfo {
    /// Calculates page metadata from the pagination parameters and the total
    /// number of rows that match the query, including the rows that are not
    /// on the page.
    pub fn from_page_params(page_params: &Valid<ConnectionPageParams>, total_count: i32) -> (info: PageInfo)
        requires
            page_in_range(page_params.value(), total_count),
        ensures
            page_info_describes(
                info,
                page_offset(page_params.value().after_arg()),
                page_end(
                    page_offset(page_params.value().after_arg()),
                    page_params.value().first_arg(),
                    total_count as int,
                ),
                total_count as int,
            ),
    {
        let params = page_params.inner();
        let offset: i32 = params.offset();
        let limit_opt: Option<i32> = params.limit();

        let start_index = offset;
        let end_index = match limit_opt {
            None => total_count - 1,
            Some(limit) => if offset + limit < total_count {
                offset + limit - 1
            } else {
                total_count - 1
            },
        };

        let (start_cursor, end_cursor) = if end_index < start_index {
            (None, None)
        } else {
            (Some(Cursor::from_index(start_index)), Some(Cursor::from_index(end_index)))
        };

        PageInfo {
            start_cursor,
            end_cursor,
            has_previous_page: 0 < start_index && 0 < total_count,
            has_next_page: end_index < total_count - 1,
        }
    }

    /// Calculates page metadata as [`PageInfo::from_page_params`] does, or
    /// `None` where the computation would leave 32-bit integers.
    pub fn checked_from_page_params(
        page_params: &Valid<ConnectionPageParams>,
        total_count: i32,
    ) -> (r: Option<PageInfo>)
        ensures
            r is Some <==> page_in_range(page_params.value(), total_count),
            r matches Some(info) ==> page_info_describes(
                info,
                page_offset(page_params.value().after_arg()),
                page_end(
                    page_offset(page_params.value().after_arg()),
                    page_params.value().first_arg(),
                    total_count as int,
                ),
                total_count as int,
            ),
    {
        let params = page_params.inner();
        if total_count == i32::MIN {
            return None;
        }
        let index: i32 = match &params.after {
            None => -1,
            Some(cursor) => match cursor.to_index() {
                Ok(index) => index,
                Err(_) => -1,
            },
        };
        if index == i32::MAX {
            return None;
        }
        let offset = index + 1;
        if let Some(limit) = params.first {
            if limit > i32::MAX - offset {
                return None;
            }
        }
        Some(PageInfo::from_page_params(page_params, total_count))
    }
}


/// An edge of a connection: a node, and the cursor that locates it within
/// the connection.
#[derive(Debug)]
pub struct GenericEdge<N> {
    pub node: N,
    pub cursor: Cursor,
}

/// Can every row of a page starting at index `offset` get a cursor?
pub open spec fn cursors_in_range(len: nat, offset: i32) -> bool {
    len == 0 || (len - 1 <= i32::MAX && offset + len - 1 <= i32::MAX)
}

/// Is each edge the row at its position, with the cursor of that row's index
/// in the whole query?
pub open spec fn edges_of<N>(edges: Seq<GenericEdge<N>>, rows: Seq<N>, offset: i32) -> bool {
    &&& edges.len() == rows.len()
    &&& forall|i: int|
        0 <= i < edges.len() ==> (#[trigger] edges[i]).node == rows[i] && edges[i].cursor.0@
            == cursor_text((offset + i) as i32)
}

impl<N> GenericEdge<N> {
    /// Turns the rows of one page into edges. `offset` is the index of the
    /// first row within the whole query result, from which each edge's
    /// cursor is computed. Indexes beyond `i32` are left out.
    pub fn from_db_rows(rows: Vec<N>, offset: i32) -> (edges: Vec<GenericEdge<N>>)
        requires
            cursors_in_range(rows@.len(), offset),
        ensures
            edges_of(edges@, rows@, offset),
    {
        let ghost original = rows@;
        let mut rows = rows;
        let mut reversed: Vec<N> = Vec::new();
        while rows.len() > 0
            invariant
                rows@.len() + reversed@.len() == original.len(),
                rows@ == original.subrange(0, rows@.len() as int),
                forall|j: int| 0 <= j < reversed@.len() ==> #[trigger] reversed@[j] == original[original.len() - 1 - j],
            decreases rows@.len(),
        {
            let row = rows.pop().unwrap();
            reversed.push(row);
        }
        let mut edges: Vec<GenericEdge<N>> = Vec::new();
        let mut i: i32 = 0;
        while reversed.len() > 0
            invariant
                edges@.len() + reversed@.len() == original.len(),
                reversed@.len() > 0 ==> i == edges@.len(),
                cursors_in_range(original.len(), offset),
                forall|j: int| 0 <= j < reversed@.len() ==> #[trigger] reversed@[j] == original[original.len() - 1 - j],
                forall|j: int|
                    0 <= j < edges@.len() ==> (#[trigger] edges@[j]).node == original[j] && edges@[j].cursor.0@
                        == cursor_text((offset + j) as i32),
            decreases reversed@.len(),
        {
            let row = reversed.pop().unwrap();
            let cursor = Cursor::from_index(offset + i);
            edges.push(GenericEdge { node: row, cursor });
            if reversed.len() > 0 {
                i = i + 1;
            }
        }
        edges
    }
}

/// Law: when a query returns exactly the rows that the page parameters
/// select, the first and last edges carry the page's start and end cursors.
pub proof fn lemma_edges_match_page_info<N>(
    edges: Seq<GenericEdge<N>>,
    rows: Seq<N>,
    info: PageInfo,
    start: int,
    end: int,
    total: int,
)
    requires
        page_info_describes(info, start, end, total),
        edges_of(edges, rows, start as i32),
        start <= end,
        rows.len() == end - start + 1,
        i32::MIN <= start,
        end <= i32::MAX,
    ensures
        info.start_cursor matches Some(c) && c.0@ == edges[0].cursor.0@,
        info.end_cursor matches Some(c) && c.0@ == edges[edges.len() - 1].cursor.0@,
{
    assert(edges[0].cursor.0@ == cursor_text((start as i32 + 0) as i32));
    assert(edges[edges.len() - 1].cursor.0@ == cursor_text((start as i32 + (edges.len() - 1)) as i32));
}

} // verus!
