use gdlk::pagination::{ConnectionPageParams, Cursor, IntDecodeError, PageInfo};
use gdlk::validation::{Valid, ValidationError};

#[test]
fn test_connection_page_params_validation() {
    ConnectionPageParams::new(Some(-1), None).unwrap_err();
    // base64 for -1
    ConnectionPageParams::new(None, Some(Cursor("/////w==".into()))).unwrap_err();
    ConnectionPageParams::new(None, Some(Cursor("garbage".into()))).unwrap_err();
}

#[test]
fn test_connection_page_params_offset_limit() {
    let mut params: Valid<ConnectionPageParams>;

    params = ConnectionPageParams::new(None, None).unwrap();
    assert_eq!(params.inner().offset(), 0);
    assert_eq!(params.inner().limit(), None);

    params = ConnectionPageParams::new(Some(0), Some(Cursor::from_index(0))).unwrap();
    assert_eq!(params.inner().offset(), 1);
    assert_eq!(params.inner().limit(), Some(0));

    params = ConnectionPageParams::new(Some(1), Some(Cursor::from_index(1))).unwrap();
    assert_eq!(params.inner().offset(), 2);
    assert_eq!(params.inner().limit(), Some(1));
}

fn page(first: Option<i32>, after: Option<i32>, total_count: i32) -> PageInfo {
    PageInfo::from_page_params(
        &ConnectionPageParams::new(first, after.map(Cursor::from_index)).unwrap(),
        total_count,
    )
}

fn info(start: Option<i32>, end: Option<i32>, prev: bool, next: bool) -> PageInfo {
    PageInfo {
        start_cursor: start.map(Cursor::from_index),
        end_cursor: end.map(Cursor::from_index),
        has_previous_page: prev,
        has_next_page: next,
    }
}

#[test]
fn test_page_info_from_page_params_no_params() {
    assert_eq!(page(None, None, 0), info(None, None, false, false));
    assert_eq!(page(None, None, 1), info(Some(0), Some(0), false, false));
    assert_eq!(page(None, None, 10), info(Some(0), Some(9), false, false));
}

#[test]
fn test_page_info_from_page_params_with_first() {
    // first = 0
    assert_eq!(page(Some(0), None, 0), info(None, None, false, false));
    assert_eq!(page(Some(0), None, 1), info(None, None, false, true));
    // first > 0, total_count = 0
    assert_eq!(page(Some(5), None, 0), info(None, None, false, false));
    // first > total_count > 0
    assert_eq!(page(Some(5), None, 3), info(Some(0), Some(2), false, false));
    // first = total_count
    assert_eq!(page(Some(5), None, 5), info(Some(0), Some(4), false, false));
    // first < total_count
    assert_eq!(page(Some(5), None, 10), info(Some(0), Some(4), false, true));
}

#[test]
fn test_page_info_from_page_params_with_after() {
    // total_count = 0
    assert_eq!(page(None, Some(0), 0), info(None, None, false, false));
    // after = last index
    assert_eq!(page(None, Some(0), 1), info(None, None, true, false));
    // requested last element
    assert_eq!(page(None, Some(0), 2), info(Some(1), Some(1), true, false));
    // multiple elements returned
    assert_eq!(page(None, Some(0), 3), info(Some(1), Some(2), true, false));
}

#[test]
fn test_page_info_from_page_params_with_both() {
    // zeroes
    assert_eq!(page(Some(0), Some(0), 0), info(None, None, false, false));
    // first = 0
    assert_eq!(page(Some(0), Some(0), 1), info(None, None, true, false));
    // requested amount > returned amount
    assert_eq!(page(Some(10), Some(0), 2), info(Some(1), Some(1), true, false));
    // requested amount = available amount
    assert_eq!(page(Some(2), Some(0), 3), info(Some(1), Some(2), true, false));
    // requested amount < available amount
    assert_eq!(page(Some(10), Some(10), 30), info(Some(11), Some(20), true, true));
}

#[test]
fn test_cursor_text_and_roundtrip() {
    // Four big-endian bytes, base64 encoded.
    assert_eq!(Cursor::from_index(0).0, "AAAAAA==");
    assert_eq!(Cursor::from_index(1).0, "AAAAAQ==");
    assert_eq!(Cursor::from_index(-1).0, "/////w==");
    for i in [0, 1, 255, 256, 65536, -1, i32::MAX, i32::MIN] {
        assert_eq!(Cursor::from_index(i).to_index().unwrap(), i);
    }
}

#[test]
fn test_cursor_decode_errors() {
    assert!(matches!(
        Cursor("@@@@".into()).to_index(),
        Err(IntDecodeError::Base64Error(_))
    ));
    // Valid base64, but three bytes.
    assert!(matches!(
        Cursor("AAAA".into()).to_index(),
        Err(IntDecodeError::TryFromSliceError)
    ));
}

#[test]
fn test_validation_error_list() {
    let errors = ConnectionPageParams::new(Some(-1), Some(Cursor("garbage".into()))).unwrap_err();
    assert_eq!(
        errors.errors,
        vec![ValidationError::Range("first"), ValidationError::Cursor("after")]
    );
    let errors = ConnectionPageParams::new(Some(3), Some(Cursor::from_index(-5))).unwrap_err();
    assert_eq!(errors.errors, vec![ValidationError::Cursor("after")]);
}

#[test]
fn test_checked_page_info() {
    let params = ConnectionPageParams::new(Some(10), Some(Cursor::from_index(i32::MAX))).unwrap();
    assert_eq!(PageInfo::checked_from_page_params(&params, 5), None);
    let params = ConnectionPageParams::new(Some(i32::MAX), Some(Cursor::from_index(0))).unwrap();
    assert_eq!(PageInfo::checked_from_page_params(&params, 5), None);
    let params = ConnectionPageParams::new(None, None).unwrap();
    assert_eq!(PageInfo::checked_from_page_params(&params, i32::MIN), None);
    assert_eq!(
        PageInfo::checked_from_page_params(&params, 2),
        Some(info(Some(0), Some(1), false, false))
    );
}

use gdlk::pagination::GenericEdge;

#[test]
fn test_edges_from_db_rows() {
    let edges = GenericEdge::from_db_rows(vec!["a", "b", "c"], 10);
    assert_eq!(edges.len(), 3);
    assert_eq!(edges[0].node, "a");
    assert_eq!(edges[2].node, "c");
    assert_eq!(edges[0].cursor, Cursor::from_index(10));
    assert_eq!(edges[1].cursor, Cursor::from_index(11));
    assert_eq!(edges[2].cursor, Cursor::from_index(12));
    assert!(GenericEdge::<i32>::from_db_rows(vec![], i32::MAX).is_empty());

    // The edges of a page carry the cursors of its page info.
    let params = ConnectionPageParams::new(Some(2), Some(Cursor::from_index(0))).unwrap();
    let info = PageInfo::from_page_params(&params, 5);
    let edges = GenericEdge::from_db_rows(vec![1, 2], params.inner().offset());
    assert_eq!(info.start_cursor, Some(edges[0].cursor.clone()));
    assert_eq!(info.end_cursor, Some(edges[1].cursor.clone()));
}
