//! Comment deletion under the ownership rule: a comment may be deleted by
//! its author or by an administrator; anyone else is refused without
//! effect. The rule is evaluated against the row observed at the instant of
//! deletion.

use vstd::prelude::*;

use crate::models::CommentOutcome;
use crate::models::EngagementError;
use crate::relation::find_comment;
use crate::relation::lemma_find_comment_remove;
use crate::store::EngagementStore;
use crate::store::find_comment_index;

verus! {

/// The ownership rule: the requester wrote the comment, or holds the
/// administrator role.
pub open spec fn comment_deletable(
    requester_id: u128,
    requester_is_admin: bool,
    author_id: u128,
) -> bool {
    requester_id == author_id || requester_is_admin
}

/// What a comment-deletion request leaves behind, for each of its three
/// outcomes: an absent comment is `NotFound`; a present comment is removed
/// — and nothing else is — when the rule allows, and everything is left as
/// it was when it does not.
pub open spec fn comment_delete_post(
    pre: EngagementStore,
    post: EngagementStore,
    comment_id: u128,
    requester_id: u128,
    requester_is_admin: bool,
    result: Result<CommentOutcome, EngagementError>,
) -> bool {
    match find_comment(pre.comments@, comment_id) {
        None => result == Err::<CommentOutcome, EngagementError>(EngagementError::NotFound) && post
            == pre,
        Some(c) => if comment_deletable(requester_id, requester_is_admin, c.author_id) {
            &&& result == Ok::<CommentOutcome, EngagementError>(CommentOutcome::Deleted)
            &&& find_comment(post.comments@, comment_id) is None
            &&& forall|q: u128|
                q != comment_id ==> find_comment(post.comments@, q) == find_comment(
                    pre.comments@,
                    q,
                )
        } else {
            result == Ok::<CommentOutcome, EngagementError>(CommentOutcome::Forbidden) && post
                == pre
        },
    }
}

/// Comment operations governed by the ownership rule.
pub struct CommentService;

impl CommentService {
    /// The ownership rule as an executable predicate.
    pub fn can_delete(requester_id: u128, requester_is_admin: bool, author_id: u128) -> (allowed:
        bool)
        ensures
            allowed == comment_deletable(requester_id, requester_is_admin, author_id),
    {
        requester_id == author_id || requester_is_admin
    }

    /// Deletes the comment if the requester is its author or an
    /// administrator; refuses without effect otherwise; reports an absent
    /// comment as `NotFound`. Rating rows and statistics are never touched.
    pub fn delete_comment(
        store: &mut EngagementStore,
        comment_id: u128,
        requester_id: u128,
        requester_is_admin: bool,
    ) -> (result: Result<CommentOutcome, EngagementError>)
        requires
            old(store).wf(),
        ensures
            final(store).wf(),
            final(store).ratings@ == old(store).ratings@,
            final(store).stats@ == old(store).stats@,
            final(store).next_id == old(store).next_id,
            comment_delete_post(
                *old(store),
                *final(store),
                comment_id,
                requester_id,
                requester_is_admin,
                result,
            ),
    {
        let ghost old_comments = store.comments@;
        match find_comment_index(&store.comments, comment_id) {
            None => Err(EngagementError::NotFound),
            Some(i) => {
                let c = store.comments[i];
                if Self::can_delete(requester_id, requester_is_admin, c.author_id) {
                    store.comments.remove(i);
                    proof {
                        assert forall|q: u128| q != comment_id implies find_comment(
                            store.comments@,
                            q,
                        ) == find_comment(old_comments, q) by {
                            lemma_find_comment_remove(old_comments, i as int, q);
                        }
                        lemma_find_comment_remove(old_comments, i as int, comment_id);
                        old_comments.remove_ensures(i as int);
                    }
                    Ok(CommentOutcome::Deleted)
                } else {
                    Ok(CommentOutcome::Forbidden)
                }
            },
        }
    }
}

} // verus!
