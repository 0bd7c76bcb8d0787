use blog::graphs::{all_posts_with_comments_user, user_posts_with_comments};
use blog::models::{Comment, Post, PostWithComment, User};
use blog::queries::{all_posts, comments_belonging_to, post_comments, user_comments, user_posts};
use blog::store::{create_comment, create_post, create_user, publish_post, Store};

fn user(id: i32, name: &str) -> User {
    User { id, username: name.to_string() }
}

fn post(id: i32, user_id: i32, title: &str, published: bool) -> Post {
    Post { id, user_id, title: title.to_string(), body: format!("body of {}", title), published }
}

fn comment(id: i32, user_id: i32, post_id: i32, body: &str) -> Comment {
    Comment { id, user_id, post_id, body: body.to_string() }
}

fn summary(id: i32, title: &str, published: bool) -> PostWithComment {
    PostWithComment { id, title: title.to_string(), published }
}

/// Two users, four posts (the first and the third published), five comments.
fn sample() -> Store {
    let mut store = Store::new();
    let alice = create_user(&mut store, "alice").unwrap();
    let bob = create_user(&mut store, "bob").unwrap();
    create_user(&mut store, "carol").unwrap();
    create_post(&mut store, &alice, "one", "body of one").unwrap();
    create_post(&mut store, &bob, "two", "body of two").unwrap();
    create_post(&mut store, &alice, "three", "body of three").unwrap();
    create_post(&mut store, &bob, "four", "body of four").unwrap();
    publish_post(&mut store, 1).unwrap();
    publish_post(&mut store, 3).unwrap();
    create_comment(&mut store, 2, 1, "c1").unwrap();
    create_comment(&mut store, 1, 3, "c2").unwrap();
    create_comment(&mut store, 2, 2, "c3").unwrap();
    create_comment(&mut store, 1, 1, "c4").unwrap();
    create_comment(&mut store, 2, 3, "c5").unwrap();
    store
}

#[test]
fn all_posts_of_an_empty_store() {
    assert_eq!(all_posts(&Store::new()), Ok(vec![]));
}

#[test]
fn all_posts_are_published_latest_first_with_author() {
    let store = sample();
    assert_eq!(
        all_posts(&store),
        Ok(vec![(post(3, 1, "three", true), user(1, "alice")), (post(1, 1, "one", true), user(1, "alice"))])
    );
}

#[test]
fn all_posts_never_holds_an_unpublished_post() {
    let mut store = sample();
    for row in all_posts(&store).unwrap() {
        assert!(row.0.published);
    }
    publish_post(&mut store, 4).unwrap();
    let rows = all_posts(&store).unwrap();
    let ids: Vec<i32> = rows.iter().map(|row| row.0.id).collect();
    assert_eq!(ids, vec![4, 3, 1]);
    assert_eq!(rows[0].1, user(2, "bob"));
    for row in rows {
        assert!(row.0.published);
        assert_ne!(row.0.id, 2);
    }
}

#[test]
fn user_posts_are_the_latest_first() {
    let store = sample();
    assert_eq!(user_posts(&store, 1), Ok(vec![post(3, 1, "three", true), post(1, 1, "one", true)]));
    assert_eq!(user_posts(&store, 2), Ok(vec![post(4, 2, "four", false), post(2, 2, "two", false)]));
    assert_eq!(user_posts(&store, 3), Ok(vec![]));
    assert_eq!(user_posts(&store, 99), Ok(vec![]));
}

#[test]
fn post_comments_come_in_table_order_with_commenter() {
    let store = sample();
    assert_eq!(
        post_comments(&store, 1),
        Ok(vec![(comment(1, 2, 1, "c1"), user(2, "bob")), (comment(4, 1, 1, "c4"), user(1, "alice"))])
    );
    assert_eq!(post_comments(&store, 2), Ok(vec![(comment(3, 2, 2, "c3"), user(2, "bob"))]));
    assert_eq!(post_comments(&store, 4), Ok(vec![]));
    assert_eq!(post_comments(&store, 99), Ok(vec![]));
}

#[test]
fn user_comments_come_with_a_summary_of_the_post() {
    let store = sample();
    assert_eq!(
        user_comments(&store, 2),
        Ok(vec![
            (comment(1, 2, 1, "c1"), summary(1, "one", true)),
            (comment(3, 2, 2, "c3"), summary(2, "two", false)),
            (comment(5, 2, 3, "c5"), summary(3, "three", true)),
        ])
    );
}

#[test]
fn user_comments_of_a_user_without_comments_are_empty() {
    let store = sample();
    assert_eq!(user_comments(&store, 3), Ok(vec![]));
    assert_eq!(user_comments(&store, 99), Ok(vec![]));
    assert_eq!(user_comments(&Store::new(), 1), Ok(vec![]));
}

#[test]
fn post_summary_leaves_out_body_and_author() {
    let full = post(7, 3, "title", true);
    assert_eq!(full.summary(), summary(7, "title", true));
}

#[test]
fn comments_belonging_to_reads_for_all_parents_at_once() {
    let store = sample();
    let parents = vec![post(3, 1, "three", true), post(2, 2, "two", false)];
    assert_eq!(
        comments_belonging_to(&store, &parents),
        Ok(vec![
            (comment(2, 1, 3, "c2"), user(1, "alice")),
            (comment(3, 2, 2, "c3"), user(2, "bob")),
            (comment(5, 2, 3, "c5"), user(2, "bob")),
        ])
    );
    assert_eq!(comments_belonging_to(&store, &Vec::<Post>::new()), Ok(vec![]));
}

#[test]
fn all_posts_with_comments_user_nests_the_comments() {
    let store = sample();
    assert_eq!(
        all_posts_with_comments_user(&store),
        Ok(vec![
            (
                (post(3, 1, "three", true), user(1, "alice")),
                vec![(comment(2, 1, 3, "c2"), user(1, "alice")), (comment(5, 2, 3, "c5"), user(2, "bob"))]
            ),
            (
                (post(1, 1, "one", true), user(1, "alice")),
                vec![(comment(1, 2, 1, "c1"), user(2, "bob")), (comment(4, 1, 1, "c4"), user(1, "alice"))]
            ),
        ])
    );
}

#[test]
fn user_posts_with_comments_nests_the_comments() {
    let store = sample();
    assert_eq!(
        user_posts_with_comments(&store, 2),
        Ok(vec![
            (post(4, 2, "four", false), vec![]),
            (post(2, 2, "two", false), vec![(comment(3, 2, 2, "c3"), user(2, "bob"))]),
        ])
    );
    assert_eq!(user_posts_with_comments(&store, 3), Ok(vec![]));
}

#[test]
fn nested_reads_agree_with_flat_reads() {
    let store = sample();
    let graph = all_posts_with_comments_user(&store).unwrap();
    let flat = all_posts(&store).unwrap();
    assert_eq!(graph.len(), flat.len());
    for (entry, row) in graph.iter().zip(flat.iter()) {
        assert_eq!(&entry.0, row);
        assert_eq!(entry.1, post_comments(&store, row.0.id).unwrap());
    }
}
