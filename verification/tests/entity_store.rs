use blog::errors::AppError;
use blog::models::{Comment, Post, User, UserKey};
use blog::resolver::find_user;
use blog::store::{create_comment, create_post, create_user, publish_post, Store};

fn user(id: i32, name: &str) -> User {
    User { id, username: name.to_string() }
}

fn post(id: i32, user_id: i32, title: &str, body: &str, published: bool) -> Post {
    Post { id, user_id, title: title.to_string(), body: body.to_string(), published }
}

fn comment(id: i32, user_id: i32, post_id: i32, body: &str) -> Comment {
    Comment { id, user_id, post_id, body: body.to_string() }
}

#[test]
fn new_store_is_empty() {
    let store = Store::new();
    assert!(store.users().is_empty());
    assert!(store.posts().is_empty());
    assert!(store.comments().is_empty());
}

#[test]
fn create_user_gives_ids_from_one() {
    let mut store = Store::new();
    assert_eq!(create_user(&mut store, "alice"), Ok(user(1, "alice")));
    assert_eq!(create_user(&mut store, "bob"), Ok(user(2, "bob")));
    assert_eq!(create_user(&mut store, "carol"), Ok(user(3, "carol")));
    assert_eq!(store.users(), &vec![user(1, "alice"), user(2, "bob"), user(3, "carol")]);
}

#[test]
fn create_user_then_find_by_either_key() {
    let mut store = Store::new();
    create_user(&mut store, "zed").unwrap();
    let alice = create_user(&mut store, "alice").unwrap();
    assert_eq!(alice.id, 2);
    let by_id = find_user(&store, UserKey::ID(alice.id)).unwrap();
    let by_name = find_user(&store, UserKey::Username("alice")).unwrap();
    assert_eq!(by_id, alice);
    assert_eq!(by_name, alice);
    assert_eq!(by_id, by_name);
}

#[test]
fn create_user_rejects_taken_name() {
    let mut store = Store::new();
    create_user(&mut store, "alice").unwrap();
    assert_eq!(create_user(&mut store, "alice"), Err(AppError::ConstraintViolation));
    assert_eq!(store.users().len(), 1);
    assert_eq!(create_user(&mut store, "Alice"), Ok(user(2, "Alice")));
}

#[test]
fn create_user_rejects_empty_name() {
    let mut store = Store::new();
    assert_eq!(create_user(&mut store, ""), Err(AppError::ConstraintViolation));
    assert!(store.users().is_empty());
}

#[test]
fn create_user_continues_behind_greatest_id() {
    let mut store = Store::from_rows(vec![user(3, "a"), user(10, "b")], vec![], vec![]).unwrap();
    assert_eq!(create_user(&mut store, "c"), Ok(user(11, "c")));
}

#[test]
fn create_user_fails_when_ids_are_used_up() {
    let mut store = Store::from_rows(vec![user(i32::MAX, "last")], vec![], vec![]).unwrap();
    assert_eq!(create_user(&mut store, "more"), Err(AppError::ConstraintViolation));
    assert_eq!(store.users().len(), 1);
}

#[test]
fn find_user_reports_missing_rows() {
    let mut store = Store::new();
    assert_eq!(find_user(&store, UserKey::ID(1)), Err(AppError::NotFound));
    assert_eq!(find_user(&store, UserKey::Username("alice")), Err(AppError::NotFound));
    create_user(&mut store, "alice").unwrap();
    assert_eq!(find_user(&store, UserKey::ID(2)), Err(AppError::NotFound));
    assert_eq!(find_user(&store, UserKey::ID(0)), Err(AppError::NotFound));
    assert_eq!(find_user(&store, UserKey::Username("alic")), Err(AppError::NotFound));
}

#[test]
fn find_user_by_id_among_many() {
    let mut store = Store::new();
    for name in ["a", "b", "c", "d", "e", "f", "g"] {
        create_user(&mut store, name).unwrap();
    }
    let names = ["a", "b", "c", "d", "e", "f", "g"];
    for id in 1..=7 {
        let found = find_user(&store, UserKey::ID(id)).unwrap();
        assert_eq!(found, user(id, names[(id - 1) as usize]));
    }
    assert_eq!(find_user(&store, UserKey::ID(8)), Err(AppError::NotFound));
    assert_eq!(find_user(&store, UserKey::ID(-1)), Err(AppError::NotFound));
}

#[test]
fn lookups_on_the_store() {
    let mut store = Store::new();
    create_user(&mut store, "alice").unwrap();
    let alice = user(1, "alice");
    create_post(&mut store, &alice, "t", "b").unwrap();
    assert_eq!(store.user_by_id(1), Some(&alice));
    assert_eq!(store.user_by_id(2), None);
    assert_eq!(store.user_by_name("alice"), Some(&alice));
    assert_eq!(store.user_by_name("bob"), None);
    assert_eq!(store.post_by_id(1), Some(&post(1, 1, "t", "b", false)));
    assert_eq!(store.post_by_id(2), None);
}

#[test]
fn create_post_is_unpublished_and_numbered() {
    let mut store = Store::new();
    let alice = create_user(&mut store, "alice").unwrap();
    assert_eq!(
        create_post(&mut store, &alice, "Hello", "World"),
        Ok(post(1, 1, "Hello", "World", false))
    );
    assert_eq!(create_post(&mut store, &alice, "", ""), Ok(post(2, 1, "", "", false)));
    assert_eq!(store.posts().len(), 2);
}

#[test]
fn create_post_rejects_unknown_author() {
    let mut store = Store::new();
    create_user(&mut store, "alice").unwrap();
    let ghost = user(7, "ghost");
    assert_eq!(create_post(&mut store, &ghost, "t", "b"), Err(AppError::ConstraintViolation));
    assert!(store.posts().is_empty());
}

#[test]
fn create_post_reads_only_the_id_of_the_author() {
    let mut store = Store::new();
    create_user(&mut store, "alice").unwrap();
    let other_name = user(1, "not alice");
    assert_eq!(create_post(&mut store, &other_name, "t", "b"), Ok(post(1, 1, "t", "b", false)));
}

#[test]
fn create_comment_is_numbered() {
    let mut store = Store::new();
    let alice = create_user(&mut store, "alice").unwrap();
    let bob = create_user(&mut store, "bob").unwrap();
    create_post(&mut store, &alice, "t", "b").unwrap();
    assert_eq!(create_comment(&mut store, bob.id, 1, "Nice"), Ok(comment(1, 2, 1, "Nice")));
    assert_eq!(create_comment(&mut store, alice.id, 1, "Thanks"), Ok(comment(2, 1, 1, "Thanks")));
    assert_eq!(store.comments(), &vec![comment(1, 2, 1, "Nice"), comment(2, 1, 1, "Thanks")]);
}

#[test]
fn create_comment_rejects_unknown_user_or_post() {
    let mut store = Store::new();
    let alice = create_user(&mut store, "alice").unwrap();
    create_post(&mut store, &alice, "t", "b").unwrap();
    assert_eq!(create_comment(&mut store, 9, 1, "x"), Err(AppError::ConstraintViolation));
    assert_eq!(create_comment(&mut store, 1, 9, "x"), Err(AppError::ConstraintViolation));
    assert_eq!(create_comment(&mut store, 9, 9, "x"), Err(AppError::ConstraintViolation));
    assert!(store.comments().is_empty());
}

#[test]
fn publish_post_sets_the_flag_of_one_post() {
    let mut store = Store::new();
    let alice = create_user(&mut store, "alice").unwrap();
    create_post(&mut store, &alice, "one", "1").unwrap();
    create_post(&mut store, &alice, "two", "2").unwrap();
    create_post(&mut store, &alice, "three", "3").unwrap();
    assert_eq!(publish_post(&mut store, 2), Ok(post(2, 1, "two", "2", true)));
    assert_eq!(
        store.posts(),
        &vec![
            post(1, 1, "one", "1", false),
            post(2, 1, "two", "2", true),
            post(3, 1, "three", "3", false)
        ]
    );
}

#[test]
fn publish_post_twice_is_no_error() {
    let mut store = Store::new();
    let alice = create_user(&mut store, "alice").unwrap();
    create_post(&mut store, &alice, "t", "b").unwrap();
    let first = publish_post(&mut store, 1).unwrap();
    assert!(first.published);
    let second = publish_post(&mut store, 1).unwrap();
    assert!(second.published);
    assert_eq!(first, second);
    assert_eq!(store.posts(), &vec![post(1, 1, "t", "b", true)]);
}

#[test]
fn publish_post_reports_missing_post() {
    let mut store = Store::new();
    assert_eq!(publish_post(&mut store, 1), Err(AppError::NotFound));
    let alice = create_user(&mut store, "alice").unwrap();
    create_post(&mut store, &alice, "t", "b").unwrap();
    assert_eq!(publish_post(&mut store, 2), Err(AppError::NotFound));
    assert_eq!(store.posts(), &vec![post(1, 1, "t", "b", false)]);
}

#[test]
fn from_rows_takes_valid_tables() {
    let users = vec![user(2, "a"), user(5, "b")];
    let posts = vec![post(1, 5, "t", "b", true), post(4, 2, "u", "c", false)];
    let comments = vec![comment(3, 2, 4, "x"), comment(8, 5, 1, "y")];
    let store = Store::from_rows(users, posts, comments).unwrap();
    assert_eq!(store.users(), &vec![user(2, "a"), user(5, "b")]);
    assert_eq!(store.posts().len(), 2);
    assert_eq!(store.comments().len(), 2);
    assert_eq!(find_user(&store, UserKey::ID(5)), Ok(user(5, "b")));
}

#[test]
fn from_rows_rejects_ids_out_of_order() {
    let twice = Store::from_rows(vec![user(1, "a"), user(1, "b")], vec![], vec![]);
    assert_eq!(twice.err(), Some(AppError::SerializationError));
    let descending = Store::from_rows(vec![user(2, "a"), user(1, "b")], vec![], vec![]);
    assert_eq!(descending.err(), Some(AppError::SerializationError));
    let zero = Store::from_rows(vec![user(0, "a")], vec![], vec![]);
    assert_eq!(zero.err(), Some(AppError::SerializationError));
    let posts = Store::from_rows(
        vec![user(1, "a")],
        vec![post(2, 1, "t", "b", false), post(2, 1, "t", "b", false)],
        vec![],
    );
    assert_eq!(posts.err(), Some(AppError::SerializationError));
    let comments = Store::from_rows(
        vec![user(1, "a")],
        vec![post(1, 1, "t", "b", false)],
        vec![comment(0, 1, 1, "x")],
    );
    assert_eq!(comments.err(), Some(AppError::SerializationError));
}

#[test]
fn from_rows_rejects_bad_names() {
    let taken = Store::from_rows(vec![user(1, "a"), user(2, "b"), user(3, "a")], vec![], vec![]);
    assert_eq!(taken.err(), Some(AppError::SerializationError));
    let empty = Store::from_rows(vec![user(1, "")], vec![], vec![]);
    assert_eq!(empty.err(), Some(AppError::SerializationError));
}

#[test]
fn from_rows_rejects_dangling_keys() {
    let no_author = Store::from_rows(vec![user(1, "a")], vec![post(1, 2, "t", "b", false)], vec![]);
    assert_eq!(no_author.err(), Some(AppError::SerializationError));
    let no_commenter = Store::from_rows(
        vec![user(1, "a")],
        vec![post(1, 1, "t", "b", false)],
        vec![comment(1, 3, 1, "x")],
    );
    assert_eq!(no_commenter.err(), Some(AppError::SerializationError));
    let no_post = Store::from_rows(
        vec![user(1, "a")],
        vec![post(1, 1, "t", "b", false)],
        vec![comment(1, 1, 2, "x")],
    );
    assert_eq!(no_post.err(), Some(AppError::SerializationError));
}
