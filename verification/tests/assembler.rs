use blog::assembler::{assemble, BelongsTo, Identifiable};
use blog::models::{Comment, Post, User};

fn user(id: i32, name: &str) -> User {
    User { id, username: name.to_string() }
}

fn post(id: i32) -> Post {
    Post { id, user_id: 1, title: format!("post {}", id), body: String::new(), published: true }
}

fn comment(id: i32, post_id: i32) -> Comment {
    Comment { id, user_id: 1, post_id, body: format!("comment {}", id) }
}

#[test]
fn assemble_nothing() {
    let out = assemble(Vec::<Post>::new(), Vec::<Comment>::new());
    assert!(out.is_empty());
}

#[test]
fn assemble_without_parents_drops_every_child() {
    let out = assemble(Vec::<Post>::new(), vec![comment(1, 1), comment(2, 2)]);
    assert!(out.is_empty());
}

#[test]
fn assemble_without_children_keeps_every_parent() {
    let out = assemble(vec![post(3), post(1), post(2)], Vec::<Comment>::new());
    assert_eq!(out, vec![(post(3), vec![]), (post(1), vec![]), (post(2), vec![])]);
}

#[test]
fn assemble_groups_children_under_their_parent() {
    let parents = vec![post(3), post(2), post(1)];
    let children = vec![comment(1, 1), comment(2, 3), comment(3, 1), comment(4, 3), comment(5, 1)];
    let out = assemble(parents, children);
    assert_eq!(
        out,
        vec![
            (post(3), vec![comment(2, 3), comment(4, 3)]),
            (post(2), vec![]),
            (post(1), vec![comment(1, 1), comment(3, 1), comment(5, 1)]),
        ]
    );
}

#[test]
fn assemble_leaves_out_children_of_unknown_parents() {
    let parents = vec![post(1), post(2)];
    let children = vec![comment(1, 9), comment(2, 2), comment(3, 0), comment(4, -1), comment(5, 2)];
    let out = assemble(parents, children);
    assert_eq!(out, vec![(post(1), vec![]), (post(2), vec![comment(2, 2), comment(5, 2)])]);
}

#[test]
fn assemble_keeps_the_order_of_the_children_as_given() {
    let parents = vec![post(1)];
    let children = vec![comment(9, 1), comment(2, 1), comment(7, 1), comment(2, 1)];
    let out = assemble(parents, children);
    assert_eq!(
        out,
        vec![(post(1), vec![comment(9, 1), comment(2, 1), comment(7, 1), comment(2, 1)])]
    );
}

#[test]
fn assemble_has_as_many_entries_as_parents() {
    let parents: Vec<Post> = (1..=50).map(post).collect();
    let children: Vec<Comment> = (1..=200).map(|i| comment(i, i % 60)).collect();
    let out = assemble(parents, children);
    assert_eq!(out.len(), 50);
    let mut total = 0;
    for (i, (parent, kids)) in out.iter().enumerate() {
        assert_eq!(parent.id, i as i32 + 1);
        let expected: Vec<Comment> =
            (1..=200).filter(|c| c % 60 == parent.id).map(|c| comment(c, parent.id)).collect();
        assert_eq!(kids, &expected);
        total += kids.len();
    }
    let matching = (1..=200).filter(|c| (1..=50).contains(&(c % 60))).count();
    assert_eq!(total, matching);
}

#[test]
fn assemble_gives_children_of_a_repeated_key_to_the_last_parent() {
    let mut first = post(1);
    first.title = "first".to_string();
    let mut second = post(1);
    second.title = "second".to_string();
    let out = assemble(vec![first, post(2), second], vec![comment(1, 1), comment(2, 2), comment(3, 1)]);
    assert_eq!(out.len(), 3);
    assert_eq!(out[0].0.title, "first");
    assert_eq!(out[0].1, vec![]);
    assert_eq!(out[1].1, vec![comment(2, 2)]);
    assert_eq!(out[2].0.title, "second");
    assert_eq!(out[2].1, vec![comment(1, 1), comment(3, 1)]);
}

#[test]
fn assemble_pairs_travel_with_their_rows() {
    let parents = vec![(post(2), user(1, "alice")), (post(1), user(2, "bob"))];
    let children = vec![
        (comment(1, 1), user(2, "bob")),
        (comment(2, 2), user(1, "alice")),
        (comment(3, 1), user(1, "alice")),
    ];
    let out = assemble(parents, children);
    assert_eq!(
        out,
        vec![
            ((post(2), user(1, "alice")), vec![(comment(2, 2), user(1, "alice"))]),
            (
                (post(1), user(2, "bob")),
                vec![(comment(1, 1), user(2, "bob")), (comment(3, 1), user(1, "alice"))]
            ),
        ]
    );
}

#[test]
fn rows_give_the_keys_they_are_grouped_by() {
    let parent = Post { id: 7, user_id: 3, title: String::new(), body: String::new(), published: false };
    let child = Comment { id: 5, user_id: 3, post_id: 7, body: String::new() };
    assert_eq!(parent.id(), 7);
    assert_eq!(child.id(), 5);
    assert_eq!(child.parent_id(), 7);
    assert_eq!(user(3, "a").id(), 3);
    assert_eq!((parent, user(3, "a")).id(), 7);
    assert_eq!((child, user(3, "a")).parent_id(), 7);
}

#[test]
fn clones_are_equal_to_their_rows() {
    let parent = post(4);
    let child = comment(2, 4);
    let author = user(1, "alice");
    assert_eq!(parent.clone(), parent);
    assert_eq!(child.clone(), child);
    assert_eq!(author.clone(), author);
}
