//! The state of the blog as mathematics: three tables of rows, what makes
//! them a valid state, and what each write does to them.

use crate::models::{CommentView, PostView, UserKeyView, UserView};
use vstd::prelude::*;

verus! {

/// What a store holds: the rows of each table, in the order of the table.
pub struct StoreState {
    pub users: Seq<UserView>,
    pub posts: Seq<PostView>,
    pub comments: Seq<CommentView>,
}

impl StoreState {
    /// The state before anything was written.
    pub open spec fn empty() -> StoreState {
        StoreState { users: Seq::empty(), posts: Seq::empty(), comments: Seq::empty() }
    }

    /// The user that `key` names, if any.
    pub open spec fn find_user(self, key: UserKeyView) -> Option<UserView> {
        if exists|i: int| 0 <= i < self.users.len() && key.names(#[trigger] self.users[i]) {
            Some(
                self.users[choose|i: int|
                    0 <= i < self.users.len() && key.names(#[trigger] self.users[i])],
            )
        } else {
            None
        }
    }

    /// Whether a user with this id exists.
    pub open spec fn has_user(self, id: i32) -> bool {
        self.find_user(UserKeyView::ID(id)) is Some
    }

    /// Whether a user with this name exists.
    pub open spec fn has_username(self, name: Seq<char>) -> bool {
        self.find_user(UserKeyView::Username(name)) is Some
    }

    /// The user with this id, where there is one.
    pub open spec fn user(self, id: i32) -> UserView {
        self.find_user(UserKeyView::ID(id))->0
    }

    /// Whether a post with this id exists.
    pub open spec fn has_post(self, id: i32) -> bool {
        exists|i: int| 0 <= i < self.posts.len() && (#[trigger] self.posts[i]).id == id
    }

    /// The post with this id, where there is one.
    pub open spec fn post(self, id: i32) -> PostView {
        self.posts[choose|i: int| 0 <= i < self.posts.len() && (#[trigger] self.posts[i]).id == id]
    }

    /// The users table is in order: ids positive and ascending, names not
    /// empty, no name taken twice.
    pub open spec fn users_valid(self) -> bool {
        &&& forall|i: int|
            0 <= i < self.users.len() ==> (#[trigger] self.users[i]).id >= 1
                && self.users[i].username.len() > 0
        &&& forall|i: int, j: int|
            0 <= i < j < self.users.len() ==> (#[trigger] self.users[i]).id < (
            #[trigger] self.users[j]).id
        &&& forall|i: int, j: int|
            0 <= i < j < self.users.len() ==> (#[trigger] self.users[i]).username != (
            #[trigger] self.users[j]).username
    }

    /// The posts table is in order: ids positive and ascending, every author
    /// a user.
    pub open spec fn posts_valid(self) -> bool {
        &&& forall|i: int|
            0 <= i < self.posts.len() ==> (#[trigger] self.posts[i]).id >= 1 && self.has_user(
                self.posts[i].user_id,
            )
        &&& forall|i: int, j: int|
            0 <= i < j < self.posts.len() ==> (#[trigger] self.posts[i]).id < (
            #[trigger] self.posts[j]).id
    }

    /// The comments table is in order: ids positive and ascending, every
    /// commenter a user, every commented post a post.
    pub open spec fn comments_valid(self) -> bool {
        &&& forall|i: int|
            0 <= i < self.comments.len() ==> (#[trigger] self.comments[i]).id >= 1
                && self.has_user(self.comments[i].user_id) && self.has_post(
                self.comments[i].post_id,
            )
        &&& forall|i: int, j: int|
            0 <= i < j < self.comments.len() ==> (#[trigger] self.comments[i]).id < (
            #[trigger] self.comments[j]).id
    }

    /// What every state that the operations reach satisfies.
    pub open spec fn valid(self) -> bool {
        &&& self.users_valid()
        &&& self.posts_valid()
        &&& self.comments_valid()
    }

    /// The id that the next user gets: one more than the greatest in use.
    pub open spec fn next_user_id(self) -> int {
        if self.users.len() == 0 {
            1
        } else {
            self.users.last().id + 1
        }
    }

    /// The id that the next post gets.
    pub open spec fn next_post_id(self) -> int {
        if self.posts.len() == 0 {
            1
        } else {
            self.posts.last().id + 1
        }
    }

    /// The id that the next comment gets.
    pub open spec fn next_comment_id(self) -> int {
        if self.comments.len() == 0 {
            1
        } else {
            self.comments.last().id + 1
        }
    }

    /// Whether a user of this name can be added: the name is not empty and
    /// not taken, and an id is left to give.
    pub open spec fn accepts_user(self, username: Seq<char>) -> bool {
        &&& username.len() > 0
        &&& !self.has_username(username)
        &&& self.next_user_id() <= i32::MAX
    }

    /// The user that `with_user` adds.
    pub open spec fn new_user(self, username: Seq<char>) -> UserView {
        UserView { id: self.next_user_id() as i32, username }
    }

    /// The state after a user of this name was added.
    pub open spec fn with_user(self, username: Seq<char>) -> StoreState {
        StoreState { users: self.users.push(self.new_user(username)), ..self }
    }

    /// Whether a post by this author can be added: the author exists, and an
    /// id is left to give.
    pub open spec fn accepts_post(self, user_id: i32) -> bool {
        &&& self.has_user(user_id)
        &&& self.next_post_id() <= i32::MAX
    }

    /// The post that `with_post` adds: not yet published.
    pub open spec fn new_post(self, user_id: i32, title: Seq<char>, body: Seq<char>) -> PostView {
        PostView { id: self.next_post_id() as i32, user_id, title, body, published: false }
    }

    /// The state after a post was added.
    pub open spec fn with_post(self, user_id: i32, title: Seq<char>, body: Seq<char>) -> StoreState {
        StoreState { posts: self.posts.push(self.new_post(user_id, title, body)), ..self }
    }

    /// Whether a comment by this user on this post can be added: both exist,
    /// and an id is left to give.
    pub open spec fn accepts_comment(self, user_id: i32, post_id: i32) -> bool {
        &&& self.has_user(user_id)
        &&& self.has_post(post_id)
        &&& self.next_comment_id() <= i32::MAX
    }

    /// The comment that `with_comment` adds.
    pub open spec fn new_comment(self, user_id: i32, post_id: i32, body: Seq<char>) -> CommentView {
        CommentView { id: self.next_comment_id() as i32, user_id, post_id, body }
    }

    /// The state after a comment was added.
    pub open spec fn with_comment(self, user_id: i32, post_id: i32, body: Seq<char>) -> StoreState {
        StoreState { comments: self.comments.push(self.new_comment(user_id, post_id, body)), ..self }
    }

    /// The state after the post with this id was published: that post has
    /// its flag set, and nothing else has changed.
    pub open spec fn with_published(self, post_id: i32) -> StoreState {
        StoreState {
            posts: self.posts.map_values(
                |p: PostView|
                    if p.id == post_id {
                        p.publish()
                    } else {
                        p
                    },
            ),
            ..self
        }
    }
}

/// In a valid state a user is found by the id and by the name, and by
/// either it is that user and no other.
pub proof fn lemma_user_unique(s: StoreState, i: int)
    requires
        s.users_valid(),
        0 <= i < s.users.len(),
    ensures
        s.find_user(UserKeyView::ID(s.users[i].id)) == Some(s.users[i]),
        s.find_user(UserKeyView::Username(s.users[i].username)) == Some(s.users[i]),
{
    let by_id = UserKeyView::ID(s.users[i].id);
    let by_name = UserKeyView::Username(s.users[i].username);
    assert(by_id.names(s.users[i]));
    assert(by_name.names(s.users[i]));
    let k = choose|k: int| 0 <= k < s.users.len() && by_id.names(#[trigger] s.users[k]);
    assert(k == i) by {
        if k < i {
            assert(s.users[k].id < s.users[i].id);
        } else if i < k {
            assert(s.users[i].id < s.users[k].id);
        }
    }
    let n = choose|n: int| 0 <= n < s.users.len() && by_name.names(#[trigger] s.users[n]);
    assert(n == i) by {
        if n < i {
            assert(s.users[n].username != s.users[i].username);
        } else if i < n {
            assert(s.users[i].username != s.users[n].username);
        }
    }
}

/// In a valid state an id names at most one post, and `post` is that one.
pub proof fn lemma_post_unique(s: StoreState, i: int)
    requires
        s.posts_valid(),
        0 <= i < s.posts.len(),
    ensures
        s.has_post(s.posts[i].id),
        s.post(s.posts[i].id) == s.posts[i],
{
    let j = choose|j: int| 0 <= j < s.posts.len() && (#[trigger] s.posts[j]).id == s.posts[i].id;
    assert(j == i) by {
        if j < i {
            assert(s.posts[j].id < s.posts[i].id);
        } else if i < j {
            assert(s.posts[i].id < s.posts[j].id);
        }
    }
}

/// A user that is found is a row of the users table that the key names, and
/// none is found only where the key names no row.
pub proof fn lemma_find_user(s: StoreState, key: UserKeyView)
    ensures
        match s.find_user(key) {
            Some(user) => s.users.contains(user) && key.names(user),
            None => forall|i: int| 0 <= i < s.users.len() ==> !key.names(#[trigger] s.users[i]),
        },
{
}

/// A user that exists still exists after rows were added behind the users
/// that were there.
pub proof fn lemma_user_kept(s: StoreState, t: StoreState, id: i32)
    requires
        s.users.len() <= t.users.len(),
        forall|i: int| 0 <= i < s.users.len() ==> #[trigger] t.users[i] == s.users[i],
        s.has_user(id),
    ensures
        t.has_user(id),
{
    let key = UserKeyView::ID(id);
    let k = choose|k: int| 0 <= k < s.users.len() && key.names(#[trigger] s.users[k]);
    assert(key.names(t.users[k]));
}

/// A post that exists still exists after rows were added behind the posts
/// that were there, or flags were set.
pub proof fn lemma_post_kept(s: StoreState, t: StoreState, id: i32)
    requires
        s.posts.len() <= t.posts.len(),
        forall|i: int| 0 <= i < s.posts.len() ==> (#[trigger] t.posts[i]).id == s.posts[i].id,
        s.has_post(id),
    ensures
        t.has_post(id),
{
    let k = choose|k: int| 0 <= k < s.posts.len() && (#[trigger] s.posts[k]).id == id;
    assert(t.posts[k].id == id);
}

/// Adding a user that the state accepts leaves the state valid.
pub proof fn lemma_with_user_valid(s: StoreState, username: Seq<char>)
    requires
        s.valid(),
        s.accepts_user(username),
    ensures
        s.with_user(username).valid(),
{
    let t = s.with_user(username);
    let key = UserKeyView::Username(username);
    if s.users.len() > 0 {
        assert(s.users.last().id >= 1);
    }
    assert forall|i: int| 0 <= i < t.users.len() implies (#[trigger] t.users[i]).id >= 1
        && t.users[i].username.len() > 0 by {
        if i < s.users.len() {
            assert(s.users[i].id >= 1);
        }
    }
    assert forall|i: int, j: int| 0 <= i < j < t.users.len() implies (#[trigger] t.users[i]).id < (
    #[trigger] t.users[j]).id && t.users[i].username != t.users[j].username by {
        if j == s.users.len() {
            assert(s.users[i].id <= s.users.last().id);
            assert(!key.names(s.users[i]));
        } else {
            assert(s.users[i].id < s.users[j].id);
            assert(s.users[i].username != s.users[j].username);
        }
    }
    assert(t.users_valid());
    assert forall|i: int| 0 <= i < t.posts.len() implies (#[trigger] t.posts[i]).id >= 1
        && t.has_user(t.posts[i].user_id) by {
        assert(s.posts[i].id >= 1);
        lemma_user_kept(s, t, s.posts[i].user_id);
    }
    assert(t.posts_valid());
    assert forall|i: int| 0 <= i < t.comments.len() implies (#[trigger] t.comments[i]).id >= 1
        && t.has_user(t.comments[i].user_id) && t.has_post(t.comments[i].post_id) by {
        assert(s.comments[i].id >= 1);
        lemma_user_kept(s, t, s.comments[i].user_id);
        lemma_post_kept(s, t, s.comments[i].post_id);
    }
    assert(t.comments_valid());
}

/// Adding a post that the state accepts leaves the state valid.
pub proof fn lemma_with_post_valid(s: StoreState, user_id: i32, title: Seq<char>, body: Seq<char>)
    requires
        s.valid(),
        s.accepts_post(user_id),
    ensures
        s.with_post(user_id, title, body).valid(),
{
    let t = s.with_post(user_id, title, body);
    assert(t.users_valid());
    if s.posts.len() > 0 {
        assert(s.posts.last().id >= 1);
    }
    assert forall|i: int| 0 <= i < t.posts.len() implies (#[trigger] t.posts[i]).id >= 1
        && t.has_user(t.posts[i].user_id) by {
        if i < s.posts.len() {
            assert(s.posts[i].id >= 1);
            lemma_user_kept(s, t, s.posts[i].user_id);
        } else {
            lemma_user_kept(s, t, user_id);
        }
    }
    assert forall|i: int, j: int| 0 <= i < j < t.posts.len() implies (#[trigger] t.posts[i]).id < (
    #[trigger] t.posts[j]).id by {
        if j == s.posts.len() {
            assert(s.posts[i].id <= s.posts.last().id);
        } else {
            assert(s.posts[i].id < s.posts[j].id);
        }
    }
    assert(t.posts_valid());
    assert forall|i: int| 0 <= i < t.comments.len() implies (#[trigger] t.comments[i]).id >= 1
        && t.has_user(t.comments[i].user_id) && t.has_post(t.comments[i].post_id) by {
        assert(s.comments[i].id >= 1);
        lemma_user_kept(s, t, s.comments[i].user_id);
        lemma_post_kept(s, t, s.comments[i].post_id);
    }
    assert(t.comments_valid());
}

/// Adding a comment that the state accepts leaves the state valid.
pub proof fn lemma_with_comment_valid(s: StoreState, user_id: i32, post_id: i32, body: Seq<char>)
    requires
        s.valid(),
        s.accepts_comment(user_id, post_id),
    ensures
        s.with_comment(user_id, post_id, body).valid(),
{
    let t = s.with_comment(user_id, post_id, body);
    assert(t.users_valid());
    assert forall|i: int| 0 <= i < t.posts.len() implies (#[trigger] t.posts[i]).id >= 1
        && t.has_user(t.posts[i].user_id) by {
        assert(s.posts[i].id >= 1);
        lemma_user_kept(s, t, s.posts[i].user_id);
    }
    assert(t.posts_valid());
    if s.comments.len() > 0 {
        assert(s.comments.last().id >= 1);
    }
    assert forall|i: int| 0 <= i < t.comments.len() implies (#[trigger] t.comments[i]).id >= 1
        && t.has_user(t.comments[i].user_id) && t.has_post(t.comments[i].post_id) by {
        if i < s.comments.len() {
            assert(s.comments[i].id >= 1);
            lemma_user_kept(s, t, s.comments[i].user_id);
            lemma_post_kept(s, t, s.comments[i].post_id);
        } else {
            lemma_user_kept(s, t, user_id);
            lemma_post_kept(s, t, post_id);
        }
    }
    assert forall|i: int, j: int| 0 <= i < j < t.comments.len() implies (
    #[trigger] t.comments[i]).id < (#[trigger] t.comments[j]).id by {
        if j == s.comments.len() {
            assert(s.comments[i].id <= s.comments.last().id);
        } else {
            assert(s.comments[i].id < s.comments[j].id);
        }
    }
    assert(t.comments_valid());
}

/// Publishing a post leaves the state valid, whether the post exists or not.
pub proof fn lemma_with_published_valid(s: StoreState, post_id: i32)
    requires
        s.valid(),
    ensures
        s.with_published(post_id).valid(),
{
    let t = s.with_published(post_id);
    assert(t.users_valid());
    assert forall|i: int| 0 <= i < t.posts.len() implies (#[trigger] t.posts[i]).id >= 1
        && t.has_user(t.posts[i].user_id) by {
        assert(s.posts[i].id >= 1);
        lemma_user_kept(s, t, s.posts[i].user_id);
    }
    assert forall|i: int, j: int| 0 <= i < j < t.posts.len() implies (#[trigger] t.posts[i]).id < (
    #[trigger] t.posts[j]).id by {
        assert(s.posts[i].id < s.posts[j].id);
    }
    assert(t.posts_valid());
    assert forall|i: int| 0 <= i < t.comments.len() implies (#[trigger] t.comments[i]).id >= 1
        && t.has_user(t.comments[i].user_id) && t.has_post(t.comments[i].post_id) by {
        assert(s.comments[i].id >= 1);
        lemma_user_kept(s, t, s.comments[i].user_id);
        lemma_post_kept(s, t, s.comments[i].post_id);
    }
    assert(t.comments_valid());
}

/// A user that was just added is found, by the id that it was given and by
/// its name, and both ways find the same row: the one that was added. The id
/// is positive.
pub proof fn lemma_created_user_is_found(s: StoreState, username: Seq<char>)
    requires
        s.valid(),
        s.accepts_user(username),
    ensures
        s.new_user(username).id >= 1,
        s.with_user(username).find_user(UserKeyView::ID(s.new_user(username).id)) == Some(
            s.new_user(username),
        ),
        s.with_user(username).find_user(UserKeyView::Username(username)) == Some(
            s.new_user(username),
        ),
{
    let t = s.with_user(username);
    lemma_with_user_valid(s, username);
    lemma_user_unique(t, s.users.len() as int);
    assert(t.users[s.users.len() as int].id >= 1);
}

/// A user that existed before another was added is still found, by the same
/// keys, as the same row.
pub proof fn lemma_earlier_user_is_found(s: StoreState, username: Seq<char>, i: int)
    requires
        s.valid(),
        s.accepts_user(username),
        0 <= i < s.users.len(),
    ensures
        s.with_user(username).find_user(UserKeyView::ID(s.users[i].id)) == Some(s.users[i]),
        s.with_user(username).find_user(UserKeyView::Username(s.users[i].username)) == Some(
            s.users[i],
        ),
{
    let t = s.with_user(username);
    lemma_with_user_valid(s, username);
    lemma_user_unique(t, i);
}

/// Publishing a post twice is publishing it once: the second time finds the
/// post, as the first did, leaves the state as it then is, and the post is
/// published after either.
pub proof fn lemma_publish_twice(s: StoreState, post_id: i32)
    requires
        s.valid(),
    ensures
        s.with_published(post_id).with_published(post_id) == s.with_published(post_id),
        s.has_post(post_id) ==> {
            &&& s.with_published(post_id).has_post(post_id)
            &&& s.with_published(post_id).post(post_id) == s.post(post_id).publish()
            &&& s.with_published(post_id).post(post_id).published
            &&& s.with_published(post_id).with_published(post_id).post(post_id).published
        },
        !s.has_post(post_id) ==> s.with_published(post_id) == s,
{
    let t = s.with_published(post_id);
    assert(t.with_published(post_id).posts =~= t.posts);
    lemma_with_published_valid(s, post_id);
    if s.has_post(post_id) {
        let i = choose|i: int| 0 <= i < s.posts.len() && (#[trigger] s.posts[i]).id == post_id;
        lemma_post_unique(s, i);
        assert(t.posts[i].id == post_id);
        lemma_post_unique(t, i);
    } else {
        assert forall|i: int| 0 <= i < s.posts.len() implies #[trigger] t.posts[i]
            == s.posts[i] by {
            assert(s.posts[i].id != post_id);
        }
        assert(t.posts =~= s.posts);
    }
}

/// Publishing one post changes no other: every other post is the row that
/// it was, and the published one differs from what it was in the flag alone.
pub proof fn lemma_publish_touches_one(s: StoreState, post_id: i32, i: int)
    requires
        0 <= i < s.posts.len(),
    ensures
        s.with_published(post_id).posts.len() == s.posts.len(),
        s.with_published(post_id).posts[i] == if s.posts[i].id == post_id {
            s.posts[i].publish()
        } else {
            s.posts[i]
        },
        s.with_published(post_id).users == s.users,
        s.with_published(post_id).comments == s.comments,
{
}

} // verus!
