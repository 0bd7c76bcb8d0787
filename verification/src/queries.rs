//! The flat reads: each hands back rows, or pairs of joined rows, never a
//! nested value.

use crate::assembler::Identifiable;
use crate::errors::AppError;
use crate::models::{
    Comment, CommentView, Post, PostView, PostWithComment, PostWithCommentView, User, UserView,
};
use crate::models::UserKeyView;
use crate::seqs::{lemma_positions, lemma_select_ends, lemma_select_next, positions, select};
use crate::state::{lemma_find_user, StoreState};
use crate::store::Store;
use std::collections::HashSet;
use vstd::prelude::*;

verus! {

broadcast use vstd::std_specs::hash::group_hash_axioms;

/// The test that a published post passes.
pub open spec fn is_published() -> spec_fn(PostView) -> bool {
    |post: PostView| post.published
}

/// The test that a post by the user `user_id` passes.
pub open spec fn is_written_by(user_id: i32) -> spec_fn(PostView) -> bool {
    |post: PostView| post.user_id == user_id
}

/// The test that a comment on the post `post_id` passes.
pub open spec fn is_on(post_id: i32) -> spec_fn(CommentView) -> bool {
    |comment: CommentView| comment.post_id == post_id
}

/// The test that a comment on one of the posts `post_ids` passes.
pub open spec fn is_on_any(post_ids: Set<i32>) -> spec_fn(CommentView) -> bool {
    |comment: CommentView| post_ids.contains(comment.post_id)
}

/// The test that a comment by the user `user_id` passes.
pub open spec fn is_by(user_id: i32) -> spec_fn(CommentView) -> bool {
    |comment: CommentView| comment.user_id == user_id
}

/// A row as it is.
pub open spec fn itself<A>() -> spec_fn(A) -> A {
    |row: A| row
}

/// The keys of `rows`, as a set.
pub open spec fn keys<R: Identifiable>(rows: Seq<R>) -> Set<i32> {
    Set::new(|key: i32| exists|i: int| 0 <= i < rows.len() && (#[trigger] rows[i]).key() == key)
}

impl StoreState {
    /// A post beside its author.
    pub open spec fn with_author(self) -> spec_fn(PostView) -> (PostView, UserView) {
        |post: PostView| (post, self.user(post.user_id))
    }

    /// A comment beside its commenter.
    pub open spec fn with_commenter(self) -> spec_fn(CommentView) -> (CommentView, UserView) {
        |comment: CommentView| (comment, self.user(comment.user_id))
    }

    /// A comment beside the summary of the post that it is on.
    pub open spec fn with_summary(self) -> spec_fn(CommentView) -> (
        CommentView,
        PostWithCommentView,
    ) {
        |comment: CommentView| (comment, self.post(comment.post_id).summary())
    }

    /// The published posts, the latest first, each beside its author.
    pub open spec fn published_posts(self) -> Seq<(PostView, UserView)> {
        select(self.posts.reverse(), is_published(), self.with_author())
    }

    /// The posts of one author, the latest first.
    pub open spec fn posts_by(self, user_id: i32) -> Seq<PostView> {
        select(self.posts.reverse(), is_written_by(user_id), itself())
    }

    /// The comments on one post, in the order of the table, each beside its
    /// commenter.
    pub open spec fn comments_on(self, post_id: i32) -> Seq<(CommentView, UserView)> {
        select(self.comments, is_on(post_id), self.with_commenter())
    }

    /// The comments on any of these posts, in the order of the table, each
    /// beside its commenter.
    pub open spec fn comments_on_any(self, post_ids: Set<i32>) -> Seq<(CommentView, UserView)> {
        select(self.comments, is_on_any(post_ids), self.with_commenter())
    }

    /// The comments of one user, in the order of the table, each beside the
    /// summary of the post that it is on.
    pub open spec fn comments_by(self, user_id: i32) -> Seq<(CommentView, PostWithCommentView)> {
        select(self.comments, is_by(user_id), self.with_summary())
    }
}

/// What the read of the published posts yields in a valid state: published
/// posts only, each a row of the posts table beside the user that wrote it,
/// with ids descending, and every published post of the table among them.
pub proof fn lemma_published_posts(s: StoreState)
    requires
        s.valid(),
    ensures
        forall|i: int|
            0 <= i < s.published_posts().len() ==> {
                &&& (#[trigger] s.published_posts()[i]).0.published
                &&& s.posts.contains(s.published_posts()[i].0)
                &&& s.users.contains(s.published_posts()[i].1)
                &&& s.published_posts()[i].1.id == s.published_posts()[i].0.user_id
            },
        forall|i: int, j: int|
            0 <= i < j < s.published_posts().len() ==> (#[trigger] s.published_posts()[i]).0.id > (
            #[trigger] s.published_posts()[j]).0.id,
        forall|k: int|
            0 <= k < s.posts.len() && (#[trigger] s.posts[k]).published ==> exists|i: int|
                0 <= i < s.published_posts().len() && (#[trigger] s.published_posts()[i]).0
                    == s.posts[k],
{
    let source = s.posts.reverse();
    let at = positions(source, is_published());
    let rows = s.published_posts();
    lemma_positions(source, is_published());
    assert forall|i: int| 0 <= i < rows.len() implies {
        &&& (#[trigger] rows[i]).0.published
        &&& s.posts.contains(rows[i].0)
        &&& s.users.contains(rows[i].1)
        &&& rows[i].1.id == rows[i].0.user_id
        &&& rows[i].0 == source[at[i]]
    } by {
        let post = source[at[i]];
        assert(is_published()(post));
        assert(post == s.posts[s.posts.len() - 1 - at[i]]);
        assert(s.has_user(post.user_id));
        lemma_find_user(s, UserKeyView::ID(post.user_id));
    }
    assert forall|i: int, j: int| 0 <= i < j < rows.len() implies (#[trigger] rows[i]).0.id > (
    #[trigger] rows[j]).0.id by {
        assert(at[i] < at[j]);
        assert(s.posts[s.posts.len() - 1 - at[j]].id < s.posts[s.posts.len() - 1 - at[i]].id);
    }
    assert forall|k: int| 0 <= k < s.posts.len() && (#[trigger] s.posts[k]).published implies exists|
        i: int,
    |
        0 <= i < rows.len() && (#[trigger] rows[i]).0 == s.posts[k] by {
        let mirrored = s.posts.len() - 1 - k;
        assert(is_published()(source[mirrored]));
        let i = choose|i: int| 0 <= i < at.len() && at[i] == mirrored;
        assert(rows[i].0 == s.posts[k]);
    }
}

/// What the read of one author's posts yields in a valid state: posts of
/// that author only, each a row of the posts table, with ids descending, and
/// every post of the author among them.
pub proof fn lemma_posts_by(s: StoreState, user_id: i32)
    requires
        s.valid(),
    ensures
        forall|i: int|
            0 <= i < s.posts_by(user_id).len() ==> {
                &&& (#[trigger] s.posts_by(user_id)[i]).user_id == user_id
                &&& s.posts.contains(s.posts_by(user_id)[i])
            },
        forall|i: int, j: int|
            0 <= i < j < s.posts_by(user_id).len() ==> (#[trigger] s.posts_by(user_id)[i]).id > (
            #[trigger] s.posts_by(user_id)[j]).id,
        forall|k: int|
            0 <= k < s.posts.len() && (#[trigger] s.posts[k]).user_id == user_id ==> exists|i: int|
                0 <= i < s.posts_by(user_id).len() && #[trigger] s.posts_by(user_id)[i]
                    == s.posts[k],
{
    let source = s.posts.reverse();
    let at = positions(source, is_written_by(user_id));
    let rows = s.posts_by(user_id);
    lemma_positions(source, is_written_by(user_id));
    assert forall|i: int| 0 <= i < rows.len() implies {
        &&& (#[trigger] rows[i]).user_id == user_id
        &&& s.posts.contains(rows[i])
        &&& rows[i] == source[at[i]]
    } by {
        let post = source[at[i]];
        assert(is_written_by(user_id)(post));
        assert(post == s.posts[s.posts.len() - 1 - at[i]]);
    }
    assert forall|i: int, j: int| 0 <= i < j < rows.len() implies (#[trigger] rows[i]).id > (
    #[trigger] rows[j]).id by {
        assert(at[i] < at[j]);
        assert(s.posts[s.posts.len() - 1 - at[j]].id < s.posts[s.posts.len() - 1 - at[i]].id);
    }
    assert forall|k: int|
        0 <= k < s.posts.len() && (#[trigger] s.posts[k]).user_id == user_id implies exists|i: int|
        0 <= i < rows.len() && #[trigger] rows[i] == s.posts[k] by {
        let mirrored = s.posts.len() - 1 - k;
        assert(is_written_by(user_id)(source[mirrored]));
        let i = choose|i: int| 0 <= i < at.len() && at[i] == mirrored;
        assert(rows[i] == s.posts[k]);
    }
}

/// What the read of the comments on one post yields in a valid state:
/// comments on that post only, each a row of the comments table beside the
/// user that wrote it, in the order of the table, and every comment on the
/// post among them.
pub proof fn lemma_comments_on(s: StoreState, post_id: i32)
    requires
        s.valid(),
    ensures
        forall|i: int|
            0 <= i < s.comments_on(post_id).len() ==> {
                &&& (#[trigger] s.comments_on(post_id)[i]).0.post_id == post_id
                &&& s.comments.contains(s.comments_on(post_id)[i].0)
                &&& s.users.contains(s.comments_on(post_id)[i].1)
                &&& s.comments_on(post_id)[i].1.id == s.comments_on(post_id)[i].0.user_id
            },
        forall|i: int, j: int|
            0 <= i < j < s.comments_on(post_id).len() ==> (#[trigger] s.comments_on(
                post_id,
            )[i]).0.id < (#[trigger] s.comments_on(post_id)[j]).0.id,
        forall|k: int|
            0 <= k < s.comments.len() && (#[trigger] s.comments[k]).post_id == post_id
                ==> exists|i: int|
                0 <= i < s.comments_on(post_id).len() && (#[trigger] s.comments_on(post_id)[i]).0
                    == s.comments[k],
{
    let at = positions(s.comments, is_on(post_id));
    let rows = s.comments_on(post_id);
    lemma_positions(s.comments, is_on(post_id));
    assert forall|i: int| 0 <= i < rows.len() implies {
        &&& (#[trigger] rows[i]).0.post_id == post_id
        &&& s.comments.contains(rows[i].0)
        &&& s.users.contains(rows[i].1)
        &&& rows[i].1.id == rows[i].0.user_id
        &&& rows[i].0 == s.comments[at[i]]
    } by {
        let comment = s.comments[at[i]];
        assert(is_on(post_id)(comment));
        assert(s.has_user(comment.user_id));
        lemma_find_user(s, UserKeyView::ID(comment.user_id));
    }
    assert forall|i: int, j: int| 0 <= i < j < rows.len() implies (#[trigger] rows[i]).0.id < (
    #[trigger] rows[j]).0.id by {
        assert(at[i] < at[j]);
        assert(s.comments[at[i]].id < s.comments[at[j]].id);
    }
    assert forall|k: int|
        0 <= k < s.comments.len() && (#[trigger] s.comments[k]).post_id == post_id implies exists|
        i: int,
    |
        0 <= i < rows.len() && (#[trigger] rows[i]).0 == s.comments[k] by {
        assert(is_on(post_id)(s.comments[k]));
        let i = choose|i: int| 0 <= i < at.len() && at[i] == k;
        assert(rows[i].0 == s.comments[k]);
    }
}

/// What the read of one user's comments yields in a valid state: comments of
/// that user only, each a row of the comments table beside the summary of
/// the post that it is on, in the order of the table, and every comment of
/// the user among them. So a user without comments has an empty answer.
pub proof fn lemma_comments_by(s: StoreState, user_id: i32)
    requires
        s.valid(),
    ensures
        forall|i: int|
            0 <= i < s.comments_by(user_id).len() ==> {
                &&& (#[trigger] s.comments_by(user_id)[i]).0.user_id == user_id
                &&& s.comments.contains(s.comments_by(user_id)[i].0)
                &&& s.comments_by(user_id)[i].1 == s.post(
                    s.comments_by(user_id)[i].0.post_id,
                ).summary()
                &&& s.comments_by(user_id)[i].1.id == s.comments_by(user_id)[i].0.post_id
            },
        forall|i: int, j: int|
            0 <= i < j < s.comments_by(user_id).len() ==> (#[trigger] s.comments_by(
                user_id,
            )[i]).0.id < (#[trigger] s.comments_by(user_id)[j]).0.id,
        forall|k: int|
            0 <= k < s.comments.len() && (#[trigger] s.comments[k]).user_id == user_id
                ==> exists|i: int|
                0 <= i < s.comments_by(user_id).len() && (#[trigger] s.comments_by(user_id)[i]).0
                    == s.comments[k],
        (forall|k: int| 0 <= k < s.comments.len() ==> (#[trigger] s.comments[k]).user_id != user_id)
            ==> s.comments_by(user_id).len() == 0,
{
    let at = positions(s.comments, is_by(user_id));
    let rows = s.comments_by(user_id);
    lemma_positions(s.comments, is_by(user_id));
    assert forall|i: int| 0 <= i < rows.len() implies {
        &&& (#[trigger] rows[i]).0.user_id == user_id
        &&& s.comments.contains(rows[i].0)
        &&& rows[i].1 == s.post(rows[i].0.post_id).summary()
        &&& rows[i].1.id == rows[i].0.post_id
        &&& rows[i].0 == s.comments[at[i]]
    } by {
        let comment = s.comments[at[i]];
        assert(is_by(user_id)(comment));
        assert(s.has_post(comment.post_id));
    }
    assert forall|i: int, j: int| 0 <= i < j < rows.len() implies (#[trigger] rows[i]).0.id < (
    #[trigger] rows[j]).0.id by {
        assert(at[i] < at[j]);
        assert(s.comments[at[i]].id < s.comments[at[j]].id);
    }
    assert forall|k: int|
        0 <= k < s.comments.len() && (#[trigger] s.comments[k]).user_id == user_id implies exists|
        i: int,
    |
        0 <= i < rows.len() && (#[trigger] rows[i]).0 == s.comments[k] by {
        assert(is_by(user_id)(s.comments[k]));
        let i = choose|i: int| 0 <= i < at.len() && at[i] == k;
        assert(rows[i].0 == s.comments[k]);
    }
    if rows.len() > 0 {
        assert(s.comments[at[0]].user_id == user_id);
    }
}

/// All published posts, each with its author, ordered by post id descending.
pub fn all_posts(store: &Store) -> (rows: Result<Vec<(Post, User)>, AppError>)
    requires
        store.wf(),
    ensures
        rows is Ok,
        rows->Ok_0.deep_view() == store@.published_posts(),
        forall|i: int| 0 <= i < rows->Ok_0@.len() ==> (#[trigger] rows->Ok_0@[i]).0.published,
        forall|i: int, j: int|
            0 <= i < j < rows->Ok_0@.len() ==> (#[trigger] rows->Ok_0@[i]).0.id > (
            #[trigger] rows->Ok_0@[j]).0.id,
{
    let posts = store.posts();
    let n: usize = posts.len();
    let ghost source = store@.posts.reverse();
    let mut out: Vec<(Post, User)> = Vec::new();
    let mut k: usize = 0;
    proof {
        lemma_select_ends(source, is_published(), store@.with_author());
        assert(out.deep_view() =~= Seq::empty());
    }
    while k < n
        invariant
            store.wf(),
            posts.deep_view() == store@.posts,
            n == posts@.len(),
            source == store@.posts.reverse(),
            k <= n,
            out.deep_view() == select(source.take(k as int), is_published(), store@.with_author()),
        decreases n - k,
    {
        let post = &posts[n - 1 - k];
        proof {
            lemma_select_next(source, k as int, is_published(), store@.with_author());
            assert(source[k as int] == post@);
            assert(store@.posts[n - 1 - k] == post@);
        }
        if post.published {
            match store.user_by_id(post.user_id) {
                Some(author) => {
                    let ghost before = out.deep_view();
                    out.push((post.clone(), author.clone()));
                    assert(out.deep_view() =~= before.push((post@, author@)));
                },
                None => {
                    // A valid store holds the row that every foreign key names.
                    assert(false);
                },
            }
        }
        k += 1;
    }
    proof {
        lemma_select_ends(source, is_published(), store@.with_author());
        lemma_published_posts(store@);
        assert forall|i: int| 0 <= i < out@.len() implies (#[trigger] out@[i]).0.published by {
            assert(store@.published_posts()[i].0.published);
        }
        assert forall|i: int, j: int| 0 <= i < j < out@.len() implies (#[trigger] out@[i]).0.id > (
        #[trigger] out@[j]).0.id by {
            assert(store@.published_posts()[i].0.id > store@.published_posts()[j].0.id);
        }
    }
    Ok(out)
}

/// All posts of the user `user_id`, ordered by post id descending. The
/// author is not handed back: the caller asked for it by id.
pub fn user_posts(store: &Store, user_id: i32) -> (rows: Result<Vec<Post>, AppError>)
    requires
        store.wf(),
    ensures
        rows is Ok,
        rows->Ok_0.deep_view() == store@.posts_by(user_id),
        forall|i: int| 0 <= i < rows->Ok_0@.len() ==> (#[trigger] rows->Ok_0@[i]).user_id == user_id,
        forall|i: int, j: int|
            0 <= i < j < rows->Ok_0@.len() ==> (#[trigger] rows->Ok_0@[i]).id > (
            #[trigger] rows->Ok_0@[j]).id,
{
    let posts = store.posts();
    let n: usize = posts.len();
    let ghost source = store@.posts.reverse();
    let mut out: Vec<Post> = Vec::new();
    let mut k: usize = 0;
    proof {
        lemma_select_ends(source, is_written_by(user_id), itself());
        assert(out.deep_view() =~= Seq::empty());
    }
    while k < n
        invariant
            posts.deep_view() == store@.posts,
            n == posts@.len(),
            source == store@.posts.reverse(),
            k <= n,
            out.deep_view() == select(source.take(k as int), is_written_by(user_id), itself()),
        decreases n - k,
    {
        let post = &posts[n - 1 - k];
        proof {
            lemma_select_next(source, k as int, is_written_by(user_id), itself());
            assert(source[k as int] == post@);
            assert(store@.posts[n - 1 - k] == post@);
        }
        if post.user_id == user_id {
            let ghost before = out.deep_view();
            out.push(post.clone());
            assert(out.deep_view() =~= before.push(post@));
        }
        k += 1;
    }
    proof {
        lemma_select_ends(source, is_written_by(user_id), itself());
        lemma_posts_by(store@, user_id);
        assert forall|i: int| 0 <= i < out@.len() implies (#[trigger] out@[i]).user_id
            == user_id by {
            assert(store@.posts_by(user_id)[i].user_id == user_id);
        }
        assert forall|i: int, j: int| 0 <= i < j < out@.len() implies (#[trigger] out@[i]).id > (
        #[trigger] out@[j]).id by {
            assert(store@.posts_by(user_id)[i].id > store@.posts_by(user_id)[j].id);
        }
    }
    Ok(out)
}

/// All comments on the post `post_id`, each with its commenter, in the order
/// in which the table holds them.
pub fn post_comments(store: &Store, post_id: i32) -> (rows: Result<Vec<(Comment, User)>, AppError>)
    requires
        store.wf(),
    ensures
        rows is Ok,
        rows->Ok_0.deep_view() == store@.comments_on(post_id),
        forall|i: int|
            0 <= i < rows->Ok_0@.len() ==> (#[trigger] rows->Ok_0@[i]).0.post_id == post_id
                && rows->Ok_0@[i].1.id == rows->Ok_0@[i].0.user_id,
{
    let comments = store.comments();
    let n: usize = comments.len();
    let mut out: Vec<(Comment, User)> = Vec::new();
    let mut k: usize = 0;
    proof {
        lemma_select_ends(store@.comments, is_on(post_id), store@.with_commenter());
        assert(out.deep_view() =~= Seq::empty());
    }
    while k < n
        invariant
            store.wf(),
            comments.deep_view() == store@.comments,
            n == comments@.len(),
            k <= n,
            out.deep_view() == select(
                store@.comments.take(k as int),
                is_on(post_id),
                store@.with_commenter(),
            ),
        decreases n - k,
    {
        let comment = &comments[k];
        proof {
            lemma_select_next(store@.comments, k as int, is_on(post_id), store@.with_commenter());
            assert(store@.comments[k as int] == comment@);
        }
        if comment.post_id == post_id {
            match store.user_by_id(comment.user_id) {
                Some(commenter) => {
                    let ghost before = out.deep_view();
                    out.push((comment.clone(), commenter.clone()));
                    assert(out.deep_view() =~= before.push((comment@, commenter@)));
                },
                None => {
                    // A valid store holds the row that every foreign key names.
                    assert(false);
                },
            }
        }
        k += 1;
    }
    proof {
        lemma_select_ends(store@.comments, is_on(post_id), store@.with_commenter());
        lemma_comments_on(store@, post_id);
        assert forall|i: int| 0 <= i < out@.len() implies (#[trigger] out@[i]).0.post_id == post_id
            && out@[i].1.id == out@[i].0.user_id by {
            assert(store@.comments_on(post_id)[i].0.post_id == post_id);
        }
    }
    Ok(out)
}

/// All comments of the user `user_id`, each with the summary of the post
/// that it is on, in the order in which the table holds them.
pub fn user_comments(store: &Store, user_id: i32) -> (rows: Result<
    Vec<(Comment, PostWithComment)>,
    AppError,
>)
    requires
        store.wf(),
    ensures
        rows is Ok,
        rows->Ok_0.deep_view() == store@.comments_by(user_id),
        forall|i: int|
            0 <= i < rows->Ok_0@.len() ==> (#[trigger] rows->Ok_0@[i]).0.user_id == user_id
                && rows->Ok_0@[i].1.id == rows->Ok_0@[i].0.post_id,
{
    let comments = store.comments();
    let n: usize = comments.len();
    let mut out: Vec<(Comment, PostWithComment)> = Vec::new();
    let mut k: usize = 0;
    proof {
        lemma_select_ends(store@.comments, is_by(user_id), store@.with_summary());
        assert(out.deep_view() =~= Seq::empty());
    }
    while k < n
        invariant
            store.wf(),
            comments.deep_view() == store@.comments,
            n == comments@.len(),
            k <= n,
            out.deep_view() == select(
                store@.comments.take(k as int),
                is_by(user_id),
                store@.with_summary(),
            ),
        decreases n - k,
    {
        let comment = &comments[k];
        proof {
            lemma_select_next(store@.comments, k as int, is_by(user_id), store@.with_summary());
            assert(store@.comments[k as int] == comment@);
        }
        if comment.user_id == user_id {
            match store.post_by_id(comment.post_id) {
                Some(post) => {
                    let ghost before = out.deep_view();
                    out.push((comment.clone(), post.summary()));
                    assert(out.deep_view() =~= before.push((comment@, post@.summary())));
                },
                None => {
                    // A valid store holds the row that every foreign key names.
                    assert(false);
                },
            }
        }
        k += 1;
    }
    proof {
        lemma_select_ends(store@.comments, is_by(user_id), store@.with_summary());
        lemma_comments_by(store@, user_id);
        assert forall|i: int| 0 <= i < out@.len() implies (#[trigger] out@[i]).0.user_id == user_id
            && out@[i].1.id == out@[i].0.post_id by {
            assert(store@.comments_by(user_id)[i].0.user_id == user_id);
        }
    }
    Ok(out)
}

/// All comments on any of the rows `parents`, each with its commenter, in
/// the order in which the table holds them: one read for all the parents.
pub fn comments_belonging_to<P: Identifiable>(store: &Store, parents: &Vec<P>) -> (rows: Result<
    Vec<(Comment, User)>,
    AppError,
>)
    requires
        store.wf(),
    ensures
        rows is Ok,
        rows->Ok_0.deep_view() == store@.comments_on_any(keys(parents@)),
{
    let mut wanted: HashSet<i32> = HashSet::new();
    let mut j: usize = 0;
    while j < parents.len()
        invariant
            j <= parents@.len(),
            wanted@ == keys(parents@.take(j as int)),
        decreases parents@.len() - j,
    {
        wanted.insert(parents[j].id());
        proof {
            let more = keys(parents@.take(j + 1));
            assert forall|key: i32| wanted@.contains(key) <==> more.contains(key) by {
                if wanted@.contains(key) {
                    if key == parents@[j as int].key() {
                        assert(parents@.take(j + 1)[j as int].key() == key);
                    } else {
                        let i = choose|i: int|
                            0 <= i < j && (#[trigger] parents@.take(j as int)[i]).key() == key;
                        assert(parents@.take(j + 1)[i].key() == key);
                    }
                }
                if more.contains(key) {
                    let i = choose|i: int|
                        0 <= i < j + 1 && (#[trigger] parents@.take(j + 1)[i]).key() == key;
                    if i < j {
                        assert(parents@.take(j as int)[i].key() == key);
                    }
                }
            }
            assert(wanted@ =~= more);
        }
        j += 1;
    }
    assert(parents@.take(parents@.len() as int) == parents@);
    let ghost post_ids = keys(parents@);
    let comments = store.comments();
    let n: usize = comments.len();
    let mut out: Vec<(Comment, User)> = Vec::new();
    let mut k: usize = 0;
    proof {
        lemma_select_ends(store@.comments, is_on_any(post_ids), store@.with_commenter());
        assert(out.deep_view() =~= Seq::empty());
    }
    while k < n
        invariant
            store.wf(),
            comments.deep_view() == store@.comments,
            n == comments@.len(),
            k <= n,
            wanted@ == post_ids,
            out.deep_view() == select(
                store@.comments.take(k as int),
                is_on_any(post_ids),
                store@.with_commenter(),
            ),
        decreases n - k,
    {
        let comment = &comments[k];
        proof {
            lemma_select_next(
                store@.comments,
                k as int,
                is_on_any(post_ids),
                store@.with_commenter(),
            );
            assert(store@.comments[k as int] == comment@);
        }
        if wanted.contains(&comment.post_id) {
            match store.user_by_id(comment.user_id) {
                Some(commenter) => {
                    let ghost before = out.deep_view();
                    out.push((comment.clone(), commenter.clone()));
                    assert(out.deep_view() =~= before.push((comment@, commenter@)));
                },
                None => {
                    // A valid store holds the row that every foreign key names.
                    assert(false);
                },
            }
        }
        k += 1;
    }
    proof {
        lemma_select_ends(store@.comments, is_on_any(post_ids), store@.with_commenter());
    }
    Ok(out)
}

} // verus!
