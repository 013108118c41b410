use defiant::message_fields::{
    assign_tags, check_message_tags, check_oneof_tags, order_by_key, tag_error_text, TagError,
};

#[test]
fn lib_test_rejects_colliding_message_fields() {
    // `a` has tag 1; the oneof `b` has tags 4, 5 and 1.
    let tags = vec![vec![1u32], vec![4, 5, 1]];
    let err = check_message_tags(&tags).expect_err("did not reject colliding message fields");
    assert_eq!(
        tag_error_text("Invalid", err),
        "message Invalid has multiple fields with tag 1"
    );
}

#[test]
fn lib_test_rejects_colliding_oneof_variants() {
    let err = check_oneof_tags(&[1, 3, 1]).expect_err("did not reject colliding oneof variants");
    assert_eq!(
        tag_error_text("Invalid", err),
        "invalid oneof Invalid: multiple variants have tag 1"
    );
}

#[test]
fn tags_are_inferred_from_the_previous_field() {
    let declared = vec![vec![], vec![], vec![10], vec![], vec![3, 7], vec![]];
    assert_eq!(
        assign_tags(&declared),
        vec![vec![1], vec![2], vec![10], vec![11], vec![3, 7], vec![8]]
    );
    assert_eq!(assign_tags(&vec![]), Vec::<Vec<u32>>::new());
}

#[test]
fn fields_are_ordered_by_smallest_tag_stably() {
    assert_eq!(order_by_key(&[5, 1, 5, 0, 1]), vec![3, 1, 4, 0, 2]);
    assert_eq!(order_by_key(&[]), Vec::<usize>::new());
    let tags = vec![vec![9], vec![2, 8], vec![4]];
    assert_eq!(check_message_tags(&tags), Ok(vec![1, 2, 0]));
}

#[test]
fn first_duplicate_in_encoding_order_is_reported() {
    // In tag order the fields read 2, 7, 3, 7, 3: 7 repeats first.
    let tags = vec![vec![3, 7], vec![2, 7], vec![3]];
    assert_eq!(check_message_tags(&tags), Err(TagError::DuplicateFieldTag(7)));
    assert_eq!(check_oneof_tags(&[4, 9, 9, 4]), Err(TagError::DuplicateVariantTag(9)));
    assert_eq!(check_oneof_tags(&[1, 2, 3]), Ok(()));
    assert_eq!(check_oneof_tags(&[]), Ok(()));
}

#[test]
fn tags_count_on_up_to_the_largest_tag() {
    let declared = vec![vec![u32::MAX - 2], vec![]];
    assert_eq!(assign_tags(&declared), vec![vec![u32::MAX - 2], vec![u32::MAX - 1]]);
}
