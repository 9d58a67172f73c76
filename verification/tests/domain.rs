use fakebook::domain::app_user::{friend_lists, friends_of, ordered_pair, AppUser};
use fakebook::domain::comment::Comment;
use fakebook::domain::db_id::{
    decode_with_suffix, id_from_decoded, relay_id, CanDecodeId, DbId, HasDbId,
};
use fakebook::domain::post::Post;
use fakebook::domain::viewer::Viewer;
use fakebook::text::DecimalError;

fn id(raw: i32) -> DbId {
    DbId::from(raw)
}

fn user(raw: i32) -> AppUser {
    AppUser { user_id: id(raw), first_name: "Ada".to_string(), last_name: "Lovelace".to_string() }
}

#[test]
fn db_id_from_number_and_text() {
    assert_eq!(5, id(5).get());
    assert_eq!(Ok(id(-12)), DbId::parse("-12"));
    assert_eq!(Err(DecimalError::InvalidDigit), DbId::parse("1x"));
    assert_eq!(Ok(id(12)), "12".parse::<DbId>());
    assert_eq!(Err(DecimalError::Empty), "".parse::<DbId>());
}

#[test]
fn relay_id_is_base64_of_number_and_suffix() {
    assert_eq!("NVBvc3Q=", relay_id(id(5), "Post"));
    assert_eq!("MTJBcHBVc2Vy", relay_id(id(12), "AppUser"));
    assert_eq!("LTdDb21tZW50", relay_id(id(-7), "Comment"));
    assert_eq!("NQ==", relay_id(id(5), ""));
}

#[test]
fn entities_know_their_relay_ids() {
    assert_eq!("MTJBcHBVc2Vy", user(12).id());
    let post = Post { post_id: id(5), author: id(12), created_on: 0, content: "hi".to_string() };
    assert_eq!("NVBvc3Q=", post.id());
    assert_eq!(id(5), post.db_id());
    assert_eq!("hi", post.content());
    assert_eq!(0, post.created_on());
    let comment = Comment {
        comment_id: id(-7),
        referenced_post: id(5),
        author: id(12),
        created_on: 3,
        content: "ho".to_string(),
    };
    assert_eq!("LTdDb21tZW50", comment.id());
    assert_eq!(id(-7), comment.db_id());
    assert_eq!("ho", comment.content());
    assert_eq!(3, comment.created_on());
    assert_eq!(id(12), user(12).db_id());
    assert_eq!("Ada", user(12).first_name());
    assert_eq!("Lovelace", user(12).last_name());
}

#[test]
fn relay_id_is_read_back() {
    for raw in [0, 5, -7, 12, i32::MAX, i32::MIN] {
        assert_eq!(id(raw), AppUser::decode(&user(raw).id()).unwrap());
        assert_eq!(id(raw), decode_with_suffix(&relay_id(id(raw), "Post"), "Post").unwrap());
    }
    assert_eq!(id(5), Post::decode("NVBvc3Q=").unwrap());
    assert_eq!(id(-7), Comment::decode("LTdDb21tZW50").unwrap());
}

#[test]
fn every_copy_of_the_suffix_is_taken_off() {
    assert_eq!(id(5), Post::decode("NVBvc3RQb3N0").unwrap());
    assert_eq!(id(5), Post::decode("NQ==").unwrap());
}

#[test]
fn relay_id_of_another_kind_is_rejected() {
    let error = AppUser::decode("NVBvc3Q=").unwrap_err();
    assert_eq!("Could not decode relay id: invalid digit found in string", error.to_string());
    let error = Post::decode("UG9zdA==").unwrap_err();
    assert_eq!(
        "Could not decode relay id: cannot parse integer from empty string",
        error.to_string()
    );
    let error = Post::decode("OTk5OTk5OTk5OTlQb3N0").unwrap_err();
    assert_eq!(
        "Could not decode relay id: number too large to fit in target type",
        error.to_string()
    );
}

#[test]
fn relay_id_that_is_no_base64_is_rejected() {
    let error = Post::decode("!!!!").unwrap_err();
    assert_eq!("Could not decode relay id: Invalid symbol 33, offset 0.", error.to_string());
}

#[test]
fn relay_id_that_is_no_text_is_rejected() {
    let error = Post::decode("__4=").unwrap_err();
    assert_eq!(
        "Could not decode relay id: invalid utf-8 sequence of 1 bytes from index 0",
        error.to_string()
    );
    assert!(id_from_decoded(&vec![0xff, 0xfe], "Post").is_err());
    assert_eq!(id(5), id_from_decoded(&b"5Post".to_vec(), "Post").unwrap());
}

#[test]
fn viewer_wraps_the_user() {
    let viewer = Viewer::new(user(1));
    assert_eq!(id(1), viewer.user.user_id);
    assert_eq!("Ada", viewer.first_name());
    assert_eq!("Lovelace", viewer.last_name());
}

#[test]
fn friends_are_the_other_ends_of_the_relations() {
    let relations = vec![(id(1), id(2)), (id(3), id(1)), (id(2), id(3)), (id(1), id(1))];
    assert_eq!(vec![id(2), id(3), id(1)], friends_of(&relations, id(1)));
    assert_eq!(vec![id(1), id(3)], friends_of(&relations, id(2)));
    assert_eq!(Vec::<DbId>::new(), friends_of(&relations, id(9)));
    assert_eq!(
        vec![(id(2), vec![id(1), id(3)]), (id(9), Vec::new()), (id(3), vec![id(1), id(2)])],
        friend_lists(&vec![id(2), id(9), id(3)], &relations)
    );
}

#[test]
fn friendship_is_stored_smaller_id_first() {
    assert_eq!((id(1), id(2)), ordered_pair(id(1), id(2)));
    assert_eq!((id(1), id(2)), ordered_pair(id(2), id(1)));
    assert_eq!((id(-3), id(2)), ordered_pair(id(2), id(-3)));
    assert_eq!((id(4), id(4)), ordered_pair(id(4), id(4)));
}
