use fakebook::domain::db_id::DbId;
use fakebook::domain::relay_meta::{
    cursor_position, determine_range, page_window, position_of, AppCursor, PageWindow,
};

const ARRAY: [i32; 10] = [0, 1, 2, 3, 4, 5, 6, 7, 8, 9];

fn ids(raw: &[i32]) -> Vec<DbId> {
    raw.iter().map(|x| DbId::from(*x)).collect()
}

#[test]
fn encode() {
    for x in [i32::MIN, -1, 0, 1, i32::MAX] {
        let cursor = AppCursor(DbId::from(x));
        assert_eq!(
            cursor,
            AppCursor::decode_cursor(&AppCursor::encode_cursor(&cursor)).unwrap()
        );
    }
}

#[test]
fn determine_range_forward() {
    let (from, to) = determine_range(Some(2), None, Some(4), None, ARRAY.len()).unwrap();
    assert_eq!([3, 4, 5, 6], ARRAY[from..=to]);
}

#[test]
fn determine_range_forward_single() {
    let (from, to) = determine_range(Some(2), None, Some(1), None, ARRAY.len()).unwrap();
    assert_eq!([3], ARRAY[from..=to]);
}

#[test]
fn determine_range_backward() {
    let (from, to) = determine_range(None, Some(2), None, Some(4), ARRAY.len()).unwrap();
    assert_eq!([0, 1], ARRAY[from..=to]);
}

#[test]
fn determine_range_backward_single() {
    let (from, to) = determine_range(None, Some(2), None, Some(1), ARRAY.len()).unwrap();
    assert_eq!([1], ARRAY[from..=to]);
}

#[test]
fn determine_range_too_few_results() {
    let (from, to) = determine_range(Some(7), None, Some(4), None, ARRAY.len()).unwrap();
    assert_eq!([8, 9], ARRAY[from..=to]);
}

#[test]
fn determine_range_after_with_before() {
    let (from, to) = determine_range(Some(2), Some(5), Some(4), None, ARRAY.len()).unwrap();
    assert_eq!([3, 4], ARRAY[from..=to]);
}

#[test]
fn determine_range_all() {
    let (from, to) = determine_range(None, None, None, None, ARRAY.len()).unwrap();
    assert_eq!(ARRAY, ARRAY[from..=to]);
}

#[test]
fn determine_range_after_w_last() {
    let (from, to) = determine_range(Some(5), None, None, Some(2), ARRAY.len()).unwrap();
    assert_eq!([8, 9], ARRAY[from..=to]);
}

#[test]
fn determine_range_after_w_last_edge() {
    let result = determine_range(Some(9), None, None, Some(1), ARRAY.len());
    assert!(result.is_none());
}

#[test]
fn determine_range_before_w_first() {
    let (from, to) = determine_range(None, Some(4), Some(3), None, ARRAY.len()).unwrap();
    assert_eq!([0, 1, 2], ARRAY[from..=to]);
}

#[test]
fn determine_range_before_w_first_edge() {
    let result = determine_range(None, Some(0), Some(1), None, ARRAY.len());
    assert!(result.is_none());
}

#[test]
fn determine_range_short() {
    let array = [0, 1];
    let (from, to) = determine_range(Some(0), None, Some(3), None, array.len()).unwrap();
    assert_eq!([1], array[from..=to]);
}

#[test]
fn determine_range_single_input() {
    let array = [0];
    let result = determine_range(Some(0), None, Some(3), None, array.len());
    assert!(result.is_none());
}

#[test]
fn determine_range_empty_input() {
    let array: [i32; 0] = [];
    let result = determine_range(Some(0), None, Some(3), None, array.len());
    assert!(result.is_none());
}

#[test]
fn determine_range_first_of_zero_counts_as_one() {
    assert_eq!(Some((3, 3)), determine_range(Some(2), None, Some(0), None, 10));
    assert_eq!(Some((9, 9)), determine_range(None, None, None, Some(0), 10));
}

#[test]
fn determine_range_huge_counts_do_not_overflow() {
    assert_eq!(Some((1, 9)), determine_range(Some(0), None, Some(usize::MAX), None, 10));
    assert_eq!(Some((0, 8)), determine_range(None, Some(9), None, Some(usize::MAX), 10));
}

#[test]
fn determine_range_first_wins_over_last() {
    assert_eq!(Some((0, 1)), determine_range(None, None, Some(2), Some(3), 10));
}

#[test]
fn determine_range_before_beyond_the_list() {
    assert_eq!(Some((0, 99)), determine_range(None, Some(100), None, None, 10));
}

#[test]
fn determine_range_empty_list_without_cursors() {
    assert_eq!(Some((0, 0)), determine_range(None, None, None, None, 0));
}

#[test]
fn cursor_text_is_base64_of_little_endian_bytes() {
    assert_eq!("AQAAAA==", AppCursor(DbId::from(1)).encode_cursor());
    assert_eq!("_____w==", AppCursor(DbId::from(-1)).encode_cursor());
    assert_eq!("AAAAgA==", AppCursor(DbId::from(i32::MIN)).encode_cursor());
    assert_eq!("____fw==", AppCursor(DbId::from(i32::MAX)).encode_cursor());
}

#[test]
fn cursor_is_read_from_its_text() {
    assert_eq!(AppCursor(DbId::from(42)), AppCursor::decode_cursor("KgAAAA==").unwrap());
    assert_eq!(AppCursor(DbId::from(-1)), AppCursor::decode_cursor("_____w==").unwrap());
}

#[test]
fn cursor_that_is_no_base64_is_rejected() {
    let error = AppCursor::decode_cursor("not base64!").unwrap_err();
    assert_eq!("Could not decode cursor", error.to_string());
}

#[test]
fn cursor_of_the_wrong_size_is_rejected() {
    let error = AppCursor::decode_cursor("YWJj").unwrap_err();
    assert_eq!("Cursor had unexpected content", error.to_string());
    let error = AppCursor::from_decoded(Some(vec![1, 2, 3, 4, 5])).unwrap_err();
    assert_eq!("Cursor had unexpected content", error.to_string());
    let error = AppCursor::from_decoded(None).unwrap_err();
    assert_eq!("Could not decode cursor", error.to_string());
}

#[test]
fn cursor_from_four_decoded_bytes() {
    assert_eq!(
        AppCursor(DbId::from(0x0403_0201)),
        AppCursor::from_decoded(Some(vec![1, 2, 3, 4])).unwrap()
    );
}

#[test]
fn position_is_the_first_occurrence() {
    let list = ids(&[5, 7, 5, 9]);
    assert_eq!(Some(0), position_of(&list, DbId::from(5)));
    assert_eq!(Some(3), position_of(&list, DbId::from(9)));
    assert_eq!(None, position_of(&list, DbId::from(1)));
    assert_eq!(None, cursor_position(&list, None));
    assert_eq!(Some(1), cursor_position(&list, Some(DbId::from(7))));
}

#[test]
fn page_window_in_the_middle() {
    let list = ids(&ARRAY);
    let window = page_window(Some(DbId::from(2)), None, Some(4), None, &list).unwrap();
    assert_eq!(
        PageWindow { start: 3, end: 6, has_previous_page: true, has_next_page: false },
        window
    );
}

#[test]
fn page_window_at_the_front() {
    let list = ids(&ARRAY);
    let window = page_window(None, None, Some(2), None, &list).unwrap();
    assert_eq!(
        PageWindow { start: 0, end: 1, has_previous_page: false, has_next_page: true },
        window
    );
}

#[test]
fn page_window_unknown_cursor_counts_as_absent() {
    let list = ids(&ARRAY);
    let window = page_window(Some(DbId::from(77)), None, None, None, &list).unwrap();
    assert_eq!(0, window.start);
    assert_eq!(9, window.end);
}

#[test]
fn page_window_of_nothing() {
    assert_eq!(None, page_window(None, None, Some(3), None, &Vec::new()));
    let list = ids(&ARRAY);
    assert_eq!(None, page_window(Some(DbId::from(9)), None, None, None, &list));
    assert_eq!(None, page_window(None, Some(DbId::from(0)), None, None, &list));
    assert_eq!(None, page_window(Some(DbId::from(5)), Some(DbId::from(6)), None, None, &list));
}
