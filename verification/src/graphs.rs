//! The nested reads: posts with their comments, each comment with its
//! commenter. Each makes two flat reads and assembles what they gave.

use crate::assembler::{assemble, assembled, bucket, child_of, last_of_key, nested, Identifiable};
use crate::errors::AppError;
use crate::models::{Comment, CommentView, Post, PostView, User, UserView};
use crate::queries::{
    all_posts, comments_belonging_to, is_on, is_on_any, keys, lemma_published_posts,
    lemma_posts_by, user_posts,
};
use crate::seqs::{lemma_filter_map_commute, lemma_filter_narrows};
use crate::state::StoreState;
use crate::store::Store;
use vstd::prelude::*;

verus! {

impl StoreState {
    /// The published posts, the latest first, each beside its author and
    /// with the comments on it, which each stand beside their commenter in
    /// the order of the comments table.
    pub open spec fn published_posts_with_comments(self) -> Seq<
        ((PostView, UserView), Seq<(CommentView, UserView)>),
    > {
        self.published_posts().map_values(
            |row: (PostView, UserView)| (row, self.comments_on(row.0.id)),
        )
    }

    /// The posts of one author, the latest first, each with the comments on
    /// it, which each stand beside their commenter in the order of the
    /// comments table.
    pub open spec fn posts_with_comments_by(self, user_id: i32) -> Seq<
        (PostView, Seq<(CommentView, UserView)>),
    > {
        self.posts_by(user_id).map_values(|post: PostView| (post, self.comments_on(post.id)))
    }
}

/// The test that a comment beside its commenter passes when the comment is on
/// the post `post_id`.
pub open spec fn pair_is_on(post_id: i32) -> spec_fn((CommentView, UserView)) -> bool {
    |row: (CommentView, UserView)| row.0.post_id == post_id
}

/// What a comment beside its commenter is to a contract.
pub open spec fn pair_view() -> spec_fn((Comment, User)) -> (CommentView, UserView) {
    |row: (Comment, User)| row.deep_view()
}

/// Of the comments read for a set of parents, those that the assembler puts
/// under one parent are the comments on that parent.
proof fn lemma_bucket_is_comments_on<P: Identifiable>(
    s: StoreState,
    parents: Seq<P>,
    children: Seq<(Comment, User)>,
    i: int,
)
    requires
        children.map_values(pair_view()) == s.comments_on_any(keys(parents)),
        0 <= i < parents.len(),
        last_of_key(parents, i),
    ensures
        bucket(parents, children, i).map_values(pair_view()) == s.comments_on(parents[i].key()),
{
    let key = parents[i].key();
    let ids = keys(parents);
    assert(ids.contains(key));
    lemma_filter_map_commute(
        children,
        child_of::<(Comment, User)>(key),
        pair_view(),
        pair_is_on(key),
    );
    lemma_filter_map_commute(
        s.comments.filter(is_on_any(ids)),
        is_on(key),
        s.with_commenter(),
        pair_is_on(key),
    );
    lemma_filter_narrows(s.comments, is_on_any(ids), is_on(key));
}

/// All published posts, the latest first, each with its author and with the
/// comments on it; each comment stands beside its commenter. A post without
/// comments is there with an empty list.
pub fn all_posts_with_comments_user(store: &Store) -> (graph: Result<
    Vec<((Post, User), Vec<(Comment, User)>)>,
    AppError,
>)
    requires
        store.wf(),
    ensures
        graph is Ok,
        graph->Ok_0.deep_view() == store@.published_posts_with_comments(),
{
    let parents = match all_posts(store) {
        Ok(rows) => rows,
        Err(e) => {
            return Err(e);
        },
    };
    let children = match comments_belonging_to(store, &parents) {
        Ok(rows) => rows,
        Err(e) => {
            return Err(e);
        },
    };
    let ghost flat = parents@;
    let ghost loose = children@;
    let out = assemble(parents, children);
    proof {
        lemma_published_posts(store@);
        assert(loose.map_values(pair_view()) =~= children.deep_view());
        let wanted = store@.published_posts_with_comments();
        assert(nested(out@).len() == flat.len());
        assert forall|i: int| 0 <= i < flat.len() implies #[trigger] out.deep_view()[i]
            == wanted[i] by {
            assert(flat[i].deep_view() == parents.deep_view()[i]);
            assert(last_of_key(flat, i)) by {
                assert forall|j: int| i < j < flat.len() implies (#[trigger] flat[j]).key()
                    != flat[i].key() by {
                    assert(parents.deep_view()[j].0.id == flat[j].key());
                }
            }
            lemma_bucket_is_comments_on(store@, flat, loose, i);
            assert(nested(out@)[i] == assembled(flat, loose)[i]);
            assert(out@[i].1.deep_view() =~= out@[i].1@.map_values(pair_view()));
        }
        assert(out.deep_view() =~= wanted);
    }
    Ok(out)
}

/// All posts of the user `user_id`, the latest first, each with the comments
/// on it; each comment stands beside its commenter. A post without comments
/// is there with an empty list.
pub fn user_posts_with_comments(store: &Store, user_id: i32) -> (graph: Result<
    Vec<(Post, Vec<(Comment, User)>)>,
    AppError,
>)
    requires
        store.wf(),
    ensures
        graph is Ok,
        graph->Ok_0.deep_view() == store@.posts_with_comments_by(user_id),
{
    let parents = match user_posts(store, user_id) {
        Ok(rows) => rows,
        Err(e) => {
            return Err(e);
        },
    };
    let children = match comments_belonging_to(store, &parents) {
        Ok(rows) => rows,
        Err(e) => {
            return Err(e);
        },
    };
    let ghost flat = parents@;
    let ghost loose = children@;
    let out = assemble(parents, children);
    proof {
        lemma_posts_by(store@, user_id);
        assert(loose.map_values(pair_view()) =~= children.deep_view());
        let wanted = store@.posts_with_comments_by(user_id);
        assert(nested(out@).len() == flat.len());
        assert forall|i: int| 0 <= i < flat.len() implies #[trigger] out.deep_view()[i]
            == wanted[i] by {
            assert(flat[i].deep_view() == parents.deep_view()[i]);
            assert(last_of_key(flat, i)) by {
                assert forall|j: int| i < j < flat.len() implies (#[trigger] flat[j]).key()
                    != flat[i].key() by {
                    assert(parents.deep_view()[j].id == flat[j].key());
                }
            }
            lemma_bucket_is_comments_on(store@, flat, loose, i);
            assert(nested(out@)[i] == assembled(flat, loose)[i]);
            assert(out@[i].1.deep_view() =~= out@[i].1@.map_values(pair_view()));
        }
        assert(out.deep_view() =~= wanted);
    }
    Ok(out)
}

} // verus!
