//! The rows of the three tables, and what each of them is to a contract.

use crate::assembler::{BelongsTo, Identifiable};
use vstd::prelude::*;

verus! {

/// A registered author or commenter.
#[derive(Debug, PartialEq, Eq)]
pub struct User {
    pub id: i32,
    pub username: String,
}

/// What a [`User`] is to a contract.
pub struct UserView {
    pub id: i32,
    pub username: Seq<char>,
}

impl View for User {
    type V = UserView;

    open spec fn view(&self) -> UserView {
        UserView { id: self.id, username: self.username@ }
    }
}

impl DeepView for User {
    type V = UserView;

    open spec fn deep_view(&self) -> UserView {
        self@
    }
}

impl Clone for User {
    fn clone(&self) -> (copy: User)
        ensures
            copy == *self,
    {
        User { id: self.id, username: self.username.clone() }
    }
}

impl Identifiable for User {
    open spec fn key(&self) -> i32 {
        self.id
    }

    fn id(&self) -> (id: i32) {
        self.id
    }
}

/// The two ways to name a user.
#[derive(Clone, Copy, Debug)]
pub enum UserKey<'a> {
    Username(&'a str),
    ID(i32),
}

/// What a [`UserKey`] is to a contract.
pub enum UserKeyView {
    Username(Seq<char>),
    ID(i32),
}

impl UserKeyView {
    /// Whether this key names the user `user`.
    pub open spec fn names(self, user: UserView) -> bool {
        match self {
            UserKeyView::Username(name) => user.username == name,
            UserKeyView::ID(id) => user.id == id,
        }
    }
}

impl<'a> View for UserKey<'a> {
    type V = UserKeyView;

    open spec fn view(&self) -> UserKeyView {
        match *self {
            UserKey::Username(name) => UserKeyView::Username(name@),
            UserKey::ID(id) => UserKeyView::ID(id),
        }
    }
}

/// An article written by one user.
#[derive(Debug, PartialEq, Eq)]
pub struct Post {
    pub id: i32,
    pub user_id: i32,
    pub title: String,
    pub body: String,
    pub published: bool,
}

/// What a [`Post`] is to a contract.
pub struct PostView {
    pub id: i32,
    pub user_id: i32,
    pub title: Seq<char>,
    pub body: Seq<char>,
    pub published: bool,
}

impl PostView {
    /// The same post, visible to readers.
    pub open spec fn publish(self) -> PostView {
        PostView { published: true, ..self }
    }

    /// The part of the post that travels with one of its comments.
    pub open spec fn summary(self) -> PostWithCommentView {
        PostWithCommentView { id: self.id, title: self.title, published: self.published }
    }
}

impl View for Post {
    type V = PostView;

    open spec fn view(&self) -> PostView {
        PostView {
            id: self.id,
            user_id: self.user_id,
            title: self.title@,
            body: self.body@,
            published: self.published,
        }
    }
}

impl DeepView for Post {
    type V = PostView;

    open spec fn deep_view(&self) -> PostView {
        self@
    }
}

impl Clone for Post {
    fn clone(&self) -> (copy: Post)
        ensures
            copy == *self,
    {
        Post {
            id: self.id,
            user_id: self.user_id,
            title: self.title.clone(),
            body: self.body.clone(),
            published: self.published,
        }
    }
}

impl Identifiable for Post {
    open spec fn key(&self) -> i32 {
        self.id
    }

    fn id(&self) -> (id: i32) {
        self.id
    }
}

impl Post {
    /// The projection of this post that is sent along with a comment on it:
    /// the id, the title and the flag, without the body and the author.
    pub fn summary(&self) -> (summary: PostWithComment)
        ensures
            summary@ == self@.summary(),
    {
        PostWithComment { id: self.id, title: self.title.clone(), published: self.published }
    }
}

/// A remark of one user on one post.
#[derive(Debug, PartialEq, Eq)]
pub struct Comment {
    pub id: i32,
    pub user_id: i32,
    pub post_id: i32,
    pub body: String,
}

/// What a [`Comment`] is to a contract.
pub struct CommentView {
    pub id: i32,
    pub user_id: i32,
    pub post_id: i32,
    pub body: Seq<char>,
}

impl View for Comment {
    type V = CommentView;

    open spec fn view(&self) -> CommentView {
        CommentView { id: self.id, user_id: self.user_id, post_id: self.post_id, body: self.body@ }
    }
}

impl DeepView for Comment {
    type V = CommentView;

    open spec fn deep_view(&self) -> CommentView {
        self@
    }
}

impl Clone for Comment {
    fn clone(&self) -> (copy: Comment)
        ensures
            copy == *self,
    {
        Comment {
            id: self.id,
            user_id: self.user_id,
            post_id: self.post_id,
            body: self.body.clone(),
        }
    }
}

impl Identifiable for Comment {
    open spec fn key(&self) -> i32 {
        self.id
    }

    fn id(&self) -> (id: i32) {
        self.id
    }
}

impl BelongsTo for Comment {
    /// A comment is grouped under the post that it is on.
    open spec fn parent_key(&self) -> i32 {
        self.post_id
    }

    fn parent_id(&self) -> (id: i32) {
        self.post_id
    }
}

/// A post as it appears beside one of its comments: never stored, only read.
#[derive(Debug, PartialEq, Eq)]
pub struct PostWithComment {
    pub id: i32,
    pub title: String,
    pub published: bool,
}

/// What a [`PostWithComment`] is to a contract.
pub struct PostWithCommentView {
    pub id: i32,
    pub title: Seq<char>,
    pub published: bool,
}

impl View for PostWithComment {
    type V = PostWithCommentView;

    open spec fn view(&self) -> PostWithCommentView {
        PostWithCommentView { id: self.id, title: self.title@, published: self.published }
    }
}

impl DeepView for PostWithComment {
    type V = PostWithCommentView;

    open spec fn deep_view(&self) -> PostWithCommentView {
        self@
    }
}

} // verus!
