//! The store: the three tables in memory, and the writes that keep them valid.
//!
//! Every write hands back the row it made, with the id that the same step
//! gave it: nothing is read back afterwards to learn the id.

use crate::assembler::Identifiable;
use crate::errors::AppError;
use crate::models::{Comment, Post, User, UserKeyView};
use crate::state::{
    lemma_with_comment_valid, lemma_with_post_valid, lemma_with_published_valid,
    lemma_with_user_valid, StoreState,
};
use vstd::prelude::*;

verus! {

/// The users, posts and comments of one blog.
#[derive(Debug)]
pub struct Store {
    users: Vec<User>,
    posts: Vec<Post>,
    comments: Vec<Comment>,
}

impl View for Store {
    type V = StoreState;

    closed spec fn view(&self) -> StoreState {
        StoreState {
            users: self.users.deep_view(),
            posts: self.posts.deep_view(),
            comments: self.comments.deep_view(),
        }
    }
}

/// Whether the keys of `rows` ascend.
spec fn ascending<R: Identifiable>(rows: Seq<R>) -> bool {
    forall|i: int, j: int|
        0 <= i < j < rows.len() ==> (#[trigger] rows[i]).key() < (#[trigger] rows[j]).key()
}

/// Where in `rows`, whose keys ascend, the row with key `id` stands.
fn position_of<R: Identifiable>(rows: &Vec<R>, id: i32) -> (at: Option<usize>)
    requires
        ascending(rows@),
    ensures
        match at {
            Some(i) => i < rows@.len() && rows@[i as int].key() == id,
            None => forall|i: int| 0 <= i < rows@.len() ==> (#[trigger] rows@[i]).key() != id,
        },
{
    let mut low: usize = 0;
    let mut high: usize = rows.len();
    while low < high
        invariant
            low <= high <= rows@.len(),
            ascending(rows@),
            forall|i: int| 0 <= i < low ==> (#[trigger] rows@[i]).key() < id,
            forall|i: int| high <= i < rows@.len() ==> (#[trigger] rows@[i]).key() > id,
        decreases high - low,
    {
        let mid: usize = low + (high - low) / 2;
        let key: i32 = rows[mid].id();
        if key == id {
            return Some(mid);
        } else if key < id {
            low = mid + 1;
        } else {
            high = mid;
        }
    }
    None
}

impl Store {
    /// What the operations keep true of a store.
    pub open spec fn wf(&self) -> bool {
        self@.valid()
    }

    /// A store with no rows.
    pub fn new() -> (store: Store)
        ensures
            store@ == StoreState::empty(),
            store.wf(),
    {
        let store = Store { users: Vec::new(), posts: Vec::new(), comments: Vec::new() };
        assert(store@.users =~= Seq::empty());
        assert(store@.posts =~= Seq::empty());
        assert(store@.comments =~= Seq::empty());
        store
    }

    /// The users table.
    pub fn users(&self) -> (rows: &Vec<User>)
        ensures
            rows.deep_view() == self@.users,
    {
        &self.users
    }

    /// The posts table.
    pub fn posts(&self) -> (rows: &Vec<Post>)
        ensures
            rows.deep_view() == self@.posts,
    {
        &self.posts
    }

    /// The comments table.
    pub fn comments(&self) -> (rows: &Vec<Comment>)
        ensures
            rows.deep_view() == self@.comments,
    {
        &self.comments
    }

    /// The user with this id, if there is one.
    pub fn user_by_id(&self, id: i32) -> (found: Option<&User>)
        requires
            self.wf(),
        ensures
            match found {
                Some(user) => self@.find_user(UserKeyView::ID(id)) == Some(user@),
                None => self@.find_user(UserKeyView::ID(id)) is None,
            },
    {
        let ghost key = UserKeyView::ID(id);
        assert forall|i: int, j: int| 0 <= i < j < self.users@.len() implies (
        #[trigger] self.users@[i]).key() < (#[trigger] self.users@[j]).key() by {
            assert(self@.users[i].id < self@.users[j].id);
        }
        match position_of(&self.users, id) {
            Some(at) => {
                proof {
                    crate::state::lemma_user_unique(self@, at as int);
                }
                Some(&self.users[at])
            },
            None => {
                assert forall|i: int| 0 <= i < self@.users.len() implies !key.names(
                    #[trigger] self@.users[i],
                ) by {
                    assert(self.users@[i].key() != id);
                }
                None
            },
        }
    }

    /// The user with this name, if there is one.
    pub fn user_by_name(&self, name: &str) -> (found: Option<&User>)
        requires
            self.wf(),
        ensures
            match found {
                Some(user) => self@.find_user(UserKeyView::Username(name@)) == Some(user@),
                None => self@.find_user(UserKeyView::Username(name@)) is None,
            },
    {
        let wanted: String = name.to_owned();
        let mut at: usize = 0;
        while at < self.users.len()
            invariant
                self.wf(),
                at <= self.users@.len(),
                wanted@ == name@,
                forall|i: int|
                    0 <= i < at ==> !UserKeyView::Username(name@).names(#[trigger] self@.users[i]),
            decreases self.users@.len() - at,
        {
            if self.users[at].username == wanted {
                proof {
                    crate::state::lemma_user_unique(self@, at as int);
                }
                return Some(&self.users[at]);
            }
            assert(self@.users[at as int].username != name@);
            at += 1;
        }
        None
    }

    /// The post with this id, if there is one.
    pub fn post_by_id(&self, id: i32) -> (found: Option<&Post>)
        requires
            self.wf(),
        ensures
            match found {
                Some(post) => self@.has_post(id) && post@ == self@.post(id),
                None => !self@.has_post(id),
            },
    {
        assert forall|i: int, j: int| 0 <= i < j < self.posts@.len() implies (
        #[trigger] self.posts@[i]).key() < (#[trigger] self.posts@[j]).key() by {
            assert(self@.posts[i].id < self@.posts[j].id);
        }
        match position_of(&self.posts, id) {
            Some(at) => {
                proof {
                    crate::state::lemma_post_unique(self@, at as int);
                }
                Some(&self.posts[at])
            },
            None => {
                assert forall|i: int| 0 <= i < self@.posts.len() implies (
                #[trigger] self@.posts[i]).id != id by {
                    assert(self.posts@[i].key() != id);
                }
                None
            },
        }
    }
}

/// The state that three lists of rows stand for.
pub open spec fn tables(users: Vec<User>, posts: Vec<Post>, comments: Vec<Comment>) -> StoreState {
    StoreState {
        users: users.deep_view(),
        posts: posts.deep_view(),
        comments: comments.deep_view(),
    }
}

/// Whether the users are a valid users table.
fn users_in_order(users: &Vec<User>, Ghost(s): Ghost<StoreState>) -> (ok: bool)
    requires
        s.users == users.deep_view(),
    ensures
        ok == s.users_valid(),
{
    let mut i: usize = 0;
    while i < users.len()
        invariant
            i <= users@.len(),
            s.users == users.deep_view(),
            forall|a: int| 0 <= a < i ==> (#[trigger] s.users[a]).id >= 1 && s.users[a].username.len() > 0,
            forall|a: int, b: int|
                0 <= a < b < i ==> (#[trigger] s.users[a]).id < (#[trigger] s.users[b]).id,
            forall|a: int, b: int|
                0 <= a < b < i ==> (#[trigger] s.users[a]).username != (
                #[trigger] s.users[b]).username,
        decreases users@.len() - i,
    {
        let user = &users[i];
        assert(s.users[i as int] == user@);
        if user.id < 1 || user.username.as_str().is_empty() {
            return false;
        }
        if i > 0 {
            if users[i - 1].id >= user.id {
                assert(s.users[i - 1].id >= s.users[i as int].id);
                return false;
            }
        }
        let mut j: usize = 0;
        while j < i
            invariant
                j <= i < users@.len(),
                s.users == users.deep_view(),
                user == users@[i as int],
                forall|a: int|
                    0 <= a < j ==> (#[trigger] s.users[a]).username != s.users[i as int].username,
            decreases i - j,
        {
            if users[j].username == user.username {
                assert(s.users[j as int].username == s.users[i as int].username);
                return false;
            }
            j += 1;
        }
        assert forall|a: int| 0 <= a < i implies (#[trigger] s.users[a]).id < s.users[i as int].id by {
            if a < i - 1 {
                assert(s.users[a].id < s.users[i - 1].id);
            }
        }
        i += 1;
    }
    true
}

/// Whether the posts are a valid posts table beside these users.
fn posts_in_order(users: &Vec<User>, posts: &Vec<Post>, Ghost(s): Ghost<StoreState>) -> (ok: bool)
    requires
        s.users == users.deep_view(),
        s.posts == posts.deep_view(),
        s.users_valid(),
    ensures
        ok == s.posts_valid(),
{
    assert forall|a: int, b: int| 0 <= a < b < users@.len() implies (#[trigger] users@[a]).key() < (
    #[trigger] users@[b]).key() by {
        assert(s.users[a].id < s.users[b].id);
    }
    let mut i: usize = 0;
    while i < posts.len()
        invariant
            i <= posts@.len(),
            s.users == users.deep_view(),
            s.posts == posts.deep_view(),
            s.users_valid(),
            ascending(users@),
            forall|a: int|
                0 <= a < i ==> (#[trigger] s.posts[a]).id >= 1 && s.has_user(s.posts[a].user_id),
            forall|a: int, b: int|
                0 <= a < b < i ==> (#[trigger] s.posts[a]).id < (#[trigger] s.posts[b]).id,
        decreases posts@.len() - i,
    {
        let post = &posts[i];
        assert(s.posts[i as int] == post@);
        if post.id < 1 {
            return false;
        }
        if i > 0 {
            if posts[i - 1].id >= post.id {
                assert(s.posts[i - 1].id >= s.posts[i as int].id);
                return false;
            }
        }
        match position_of(users, post.user_id) {
            Some(at) => {
                proof {
                    crate::state::lemma_user_unique(s, at as int);
                }
            },
            None => {
                proof {
                    assert forall|k: int| 0 <= k < s.users.len() implies !UserKeyView::ID(
                        post.user_id,
                    ).names(#[trigger] s.users[k]) by {
                        assert(users@[k].key() != post.user_id);
                    }
                    assert(!s.has_user(s.posts[i as int].user_id));
                }
                return false;
            },
        }
        assert forall|a: int| 0 <= a < i implies (#[trigger] s.posts[a]).id < s.posts[i as int].id by {
            if a < i - 1 {
                assert(s.posts[a].id < s.posts[i - 1].id);
            }
        }
        i += 1;
    }
    true
}

/// Whether the comments are a valid comments table beside these users and
/// posts.
fn comments_in_order(
    users: &Vec<User>,
    posts: &Vec<Post>,
    comments: &Vec<Comment>,
    Ghost(s): Ghost<StoreState>,
) -> (ok: bool)
    requires
        s.users == users.deep_view(),
        s.posts == posts.deep_view(),
        s.comments == comments.deep_view(),
        s.users_valid(),
        s.posts_valid(),
    ensures
        ok == s.comments_valid(),
{
    assert forall|a: int, b: int| 0 <= a < b < users@.len() implies (#[trigger] users@[a]).key() < (
    #[trigger] users@[b]).key() by {
        assert(s.users[a].id < s.users[b].id);
    }
    assert forall|a: int, b: int| 0 <= a < b < posts@.len() implies (#[trigger] posts@[a]).key() < (
    #[trigger] posts@[b]).key() by {
        assert(s.posts[a].id < s.posts[b].id);
    }
    let mut i: usize = 0;
    while i < comments.len()
        invariant
            i <= comments@.len(),
            s.users == users.deep_view(),
            s.posts == posts.deep_view(),
            s.comments == comments.deep_view(),
            s.users_valid(),
            s.posts_valid(),
            ascending(users@),
            ascending(posts@),
            forall|a: int|
                0 <= a < i ==> (#[trigger] s.comments[a]).id >= 1 && s.has_user(
                    s.comments[a].user_id,
                ) && s.has_post(s.comments[a].post_id),
            forall|a: int, b: int|
                0 <= a < b < i ==> (#[trigger] s.comments[a]).id < (#[trigger] s.comments[b]).id,
        decreases comments@.len() - i,
    {
        let comment = &comments[i];
        assert(s.comments[i as int] == comment@);
        if comment.id < 1 {
            return false;
        }
        if i > 0 {
            if comments[i - 1].id >= comment.id {
                assert(s.comments[i - 1].id >= s.comments[i as int].id);
                return false;
            }
        }
        match position_of(users, comment.user_id) {
            Some(at) => {
                proof {
                    crate::state::lemma_user_unique(s, at as int);
                }
            },
            None => {
                proof {
                    assert forall|k: int| 0 <= k < s.users.len() implies !UserKeyView::ID(
                        comment.user_id,
                    ).names(#[trigger] s.users[k]) by {
                        assert(users@[k].key() != comment.user_id);
                    }
                    assert(!s.has_user(s.comments[i as int].user_id));
                }
                return false;
            },
        }
        match position_of(posts, comment.post_id) {
            Some(at) => {
                assert(s.posts[at as int].id == comment.post_id);
            },
            None => {
                proof {
                    assert forall|k: int| 0 <= k < s.posts.len() implies (#[trigger] s.posts[k]).id
                        != comment.post_id by {
                        assert(posts@[k].key() != comment.post_id);
                    }
                    assert(!s.has_post(s.comments[i as int].post_id));
                }
                return false;
            },
        }
        assert forall|a: int| 0 <= a < i implies (#[trigger] s.comments[a]).id < s.comments[i as int].id by {
            if a < i - 1 {
                assert(s.comments[a].id < s.comments[i - 1].id);
            }
        }
        i += 1;
    }
    true
}

impl Store {
    /// A store that holds these rows, where they are a valid state: ids
    /// positive and ascending in each table, user names not empty and not
    /// taken twice, every author and commenter a user, every commented post
    /// a post. Otherwise the rows are not what a store can hold, and the
    /// answer is `SerializationError`.
    pub fn from_rows(users: Vec<User>, posts: Vec<Post>, comments: Vec<Comment>) -> (loaded: Result<
        Store,
        AppError,
    >)
        ensures
            match loaded {
                Ok(store) => store.wf() && store@ == tables(users, posts, comments),
                Err(e) => e == AppError::SerializationError && !tables(
                    users,
                    posts,
                    comments,
                ).valid(),
            },
    {
        let ghost s = tables(users, posts, comments);
        if !users_in_order(&users, Ghost(s)) {
            return Err(AppError::SerializationError);
        }
        if !posts_in_order(&users, &posts, Ghost(s)) {
            return Err(AppError::SerializationError);
        }
        if !comments_in_order(&users, &posts, &comments, Ghost(s)) {
            return Err(AppError::SerializationError);
        }
        Ok(Store { users, posts, comments })
    }
}

/// The id after the greatest in `rows`, or 1 where there is no row; none
/// where the greatest is the last that the type has.
fn next_id<R: Identifiable>(rows: &Vec<R>) -> (id: Option<i32>)
    ensures
        match id {
            Some(id) => id == if rows@.len() == 0 {
                1
            } else {
                rows@.last().key() + 1
            },
            None => rows@.len() > 0 && rows@.last().key() == i32::MAX,
        },
{
    if rows.len() == 0 {
        Some(1)
    } else {
        let last: i32 = rows[rows.len() - 1].id();
        if last == i32::MAX {
            None
        } else {
            Some(last + 1)
        }
    }
}

/// Adds a user of this name and returns the new row.
///
/// The name must not be empty and not be taken, and an id must be left to
/// give: then the user gets the id after the greatest in use. Otherwise the
/// store is unchanged and the answer is `ConstraintViolation`.
pub fn create_user(store: &mut Store, username: &str) -> (created: Result<User, AppError>)
    requires
        old(store).wf(),
    ensures
        final(store).wf(),
        match created {
            Ok(user) => {
                &&& old(store)@.accepts_user(username@)
                &&& user@ == old(store)@.new_user(username@)
                &&& final(store)@ == old(store)@.with_user(username@)
            },
            Err(e) => {
                &&& !old(store)@.accepts_user(username@)
                &&& e == AppError::ConstraintViolation
                &&& final(store)@ == old(store)@
            },
        },
{
    if username.is_empty() {
        return Err(AppError::ConstraintViolation);
    }
    if store.user_by_name(username).is_some() {
        return Err(AppError::ConstraintViolation);
    }
    let id: i32 = match next_id(&store.users) {
        Some(id) => id,
        None => {
            return Err(AppError::ConstraintViolation);
        },
    };
    let user = User { id, username: username.to_owned() };
    let row = user.clone();
    store.users.push(row);
    proof {
        assert(final(store)@.users =~= old(store)@.users.push(user@));
        lemma_with_user_valid(old(store)@, username@);
    }
    Ok(user)
}

/// Adds a post by `user`, not yet published, and returns the new row.
///
/// Only the id of `user` is read. A user with that id must exist, and an id
/// must be left to give: then the post gets the id after the greatest in use.
/// Otherwise the store is unchanged and the answer is `ConstraintViolation`.
pub fn create_post(store: &mut Store, user: &User, title: &str, body: &str) -> (created: Result<
    Post,
    AppError,
>)
    requires
        old(store).wf(),
    ensures
        final(store).wf(),
        match created {
            Ok(post) => {
                &&& old(store)@.accepts_post(user.id)
                &&& post@ == old(store)@.new_post(user.id, title@, body@)
                &&& final(store)@ == old(store)@.with_post(user.id, title@, body@)
            },
            Err(e) => {
                &&& !old(store)@.accepts_post(user.id)
                &&& e == AppError::ConstraintViolation
                &&& final(store)@ == old(store)@
            },
        },
{
    if store.user_by_id(user.id).is_none() {
        return Err(AppError::ConstraintViolation);
    }
    let id: i32 = match next_id(&store.posts) {
        Some(id) => id,
        None => {
            return Err(AppError::ConstraintViolation);
        },
    };
    let post = Post {
        id,
        user_id: user.id,
        title: title.to_owned(),
        body: body.to_owned(),
        published: false,
    };
    let row = post.clone();
    store.posts.push(row);
    proof {
        assert(final(store)@.posts =~= old(store)@.posts.push(post@));
        lemma_with_post_valid(old(store)@, user.id, title@, body@);
    }
    Ok(post)
}

/// Adds a comment by the user `user_id` on the post `post_id` and returns
/// the new row.
///
/// Both the user and the post must exist, and an id must be left to give:
/// then the comment gets the id after the greatest in use. Otherwise the
/// store is unchanged and the answer is `ConstraintViolation`.
pub fn create_comment(store: &mut Store, user_id: i32, post_id: i32, body: &str) -> (created:
    Result<Comment, AppError>)
    requires
        old(store).wf(),
    ensures
        final(store).wf(),
        match created {
            Ok(comment) => {
                &&& old(store)@.accepts_comment(user_id, post_id)
                &&& comment@ == old(store)@.new_comment(user_id, post_id, body@)
                &&& final(store)@ == old(store)@.with_comment(user_id, post_id, body@)
            },
            Err(e) => {
                &&& !old(store)@.accepts_comment(user_id, post_id)
                &&& e == AppError::ConstraintViolation
                &&& final(store)@ == old(store)@
            },
        },
{
    if store.user_by_id(user_id).is_none() {
        return Err(AppError::ConstraintViolation);
    }
    if store.post_by_id(post_id).is_none() {
        return Err(AppError::ConstraintViolation);
    }
    let id: i32 = match next_id(&store.comments) {
        Some(id) => id,
        None => {
            return Err(AppError::ConstraintViolation);
        },
    };
    let comment = Comment { id, user_id, post_id, body: body.to_owned() };
    let row = comment.clone();
    store.comments.push(row);
    proof {
        assert(final(store)@.comments =~= old(store)@.comments.push(comment@));
        lemma_with_comment_valid(old(store)@, user_id, post_id, body@);
    }
    Ok(comment)
}

/// Publishes the post with this id and returns the row as it then is.
///
/// Where the post exists its flag is set, whatever it was, and nothing else
/// changes; where it does not, the store is unchanged and the answer is
/// `NotFound`.
pub fn publish_post(store: &mut Store, post_id: i32) -> (published: Result<Post, AppError>)
    requires
        old(store).wf(),
    ensures
        final(store).wf(),
        final(store)@ == old(store)@.with_published(post_id),
        match published {
            Ok(post) => {
                &&& old(store)@.has_post(post_id)
                &&& post@ == old(store)@.post(post_id).publish()
                &&& post@ == final(store)@.post(post_id)
            },
            Err(e) => {
                &&& !old(store)@.has_post(post_id)
                &&& e == AppError::NotFound
                &&& final(store)@ == old(store)@
            },
        },
{
    assert forall|i: int, j: int| 0 <= i < j < store.posts@.len() implies (
    #[trigger] store.posts@[i]).key() < (#[trigger] store.posts@[j]).key() by {
        assert(store@.posts[i].id < store@.posts[j].id);
    }
    proof {
        lemma_with_published_valid(old(store)@, post_id);
    }
    match position_of(&store.posts, post_id) {
        Some(at) => {
            store.posts[at].published = true;
            let post = store.posts[at].clone();
            proof {
                crate::state::lemma_post_unique(old(store)@, at as int);
                assert forall|i: int| 0 <= i < old(store)@.posts.len() implies (
                #[trigger] final(store)@.posts[i]) == old(store)@.with_published(
                    post_id,
                ).posts[i] by {
                    if i != at {
                        if i < at {
                            assert(old(store)@.posts[i].id < old(store)@.posts[at as int].id);
                        } else {
                            assert(old(store)@.posts[at as int].id < old(store)@.posts[i].id);
                        }
                    }
                }
                assert(final(store)@.posts =~= old(store)@.with_published(post_id).posts);
                crate::state::lemma_post_unique(final(store)@, at as int);
            }
            Ok(post)
        },
        None => {
            proof {
                assert forall|i: int| 0 <= i < old(store)@.posts.len() implies (
                #[trigger] old(store)@.posts[i]).id != post_id by {
                    assert(store.posts@[i].key() != post_id);
                }
                assert(old(store)@.posts =~= old(store)@.with_published(post_id).posts);
            }
            Err(AppError::NotFound)
        },
    }
}

} // verus!
