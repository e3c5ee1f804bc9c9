//! The general laws of the engagement core, proved from the operations'
//! contracts: what a lookup returns right after a submit, what a second
//! submit to the same slot preserves, and how a summary relates to the live
//! rating rows.

use vstd::prelude::*;

use crate::models::CreateRatingRequest;
use crate::models::RatingResponse;
use crate::rating_service::get_result;
use crate::rating_service::submit_ok;
use crate::rating_service::summary_agrees;
use crate::rating_service::summary_of;
use crate::relation::agg_for;
use crate::relation::find_rating;
use crate::relation::key_matches;
use crate::relation::lemma_agg_count_is_users;
use crate::relation::lemma_find_rating_some;
use crate::relation::lemma_users_contains;
use crate::relation::users_with_rating;
use crate::store::EngagementStore;

verus! {

/// After a successful submit of valid components, a lookup of the same
/// `(resource, user)` slot returns exactly the submitted values.
pub proof fn lemma_submit_then_get(
    pre: EngagementStore,
    post: EngagementStore,
    resource_id: u128,
    user_id: u128,
    request: CreateRatingRequest,
    now: i64,
    response: RatingResponse,
)
    requires
        submit_ok(pre, post, resource_id, user_id, request, now, response),
    ensures
        get_result(post, resource_id, user_id) == Some(response),
        response.resource_id == resource_id,
        response.user_id == user_id,
        response.difficulty == request.difficulty,
        response.quality == request.quality,
        response.detail == request.detail,
{
}

/// Submitting twice to the same `(resource, user)` slot leaves exactly one
/// rating row for that pair, carrying the later values while keeping the
/// identifier and `created_at` of the first write.
pub proof fn lemma_resubmit_keeps_identity(
    s0: EngagementStore,
    s1: EngagementStore,
    s2: EngagementStore,
    resource_id: u128,
    user_id: u128,
    request1: CreateRatingRequest,
    now1: i64,
    response1: RatingResponse,
    request2: CreateRatingRequest,
    now2: i64,
    response2: RatingResponse,
)
    requires
        s2.wf(),
        submit_ok(s0, s1, resource_id, user_id, request1, now1, response1),
        submit_ok(s1, s2, resource_id, user_id, request2, now2, response2),
    ensures
        get_result(s2, resource_id, user_id) == Some(response2),
        response2.difficulty == request2.difficulty,
        response2.quality == request2.quality,
        response2.detail == request2.detail,
        response2.id == response1.id,
        response2.created_at == response1.created_at,
        exists|i: int|
            0 <= i < s2.ratings@.len() && key_matches(
                #[trigger] s2.ratings@[i],
                resource_id,
                user_id,
            ),
        forall|i: int, j: int| #![trigger s2.ratings@[i], s2.ratings@[j]]
            0 <= i < s2.ratings@.len() && 0 <= j < s2.ratings@.len() && key_matches(
                s2.ratings@[i],
                resource_id,
                user_id,
            ) && key_matches(s2.ratings@[j], resource_id, user_id) ==> i == j,
{
    lemma_find_rating_some(s2.ratings@, resource_id, user_id);
    let r = find_rating(s2.ratings@, resource_id, user_id)->0;
    let w = choose|i: int| 0 <= i < s2.ratings@.len() && #[trigger] s2.ratings@[i] == r;
    assert(key_matches(s2.ratings@[w], resource_id, user_id));
}

/// A summary counts and sums exactly the live rating rows: its count is the
/// number of users currently holding a rating for the resource — a user
/// counts exactly when their slot is occupied — and each sum is the
/// aggregate of the stored components, so each average is the exact
/// rational `sum / count`, undefined when the count is zero.
pub proof fn lemma_summary_counts_current_rows(s: EngagementStore, resource_id: u128)
    requires
        s.wf(),
    ensures
        users_with_rating(s.ratings@, resource_id).finite(),
        summary_of(s, resource_id).rating_count as int == users_with_rating(
            s.ratings@,
            resource_id,
        ).len(),
        forall|user_id: u128|
            users_with_rating(s.ratings@, resource_id).contains(user_id) <==> (find_rating(
                s.ratings@,
                resource_id,
                user_id,
            ) is Some),
        summary_agrees(summary_of(s, resource_id), agg_for(s.ratings@, resource_id)),
{
    crate::rating_service::lemma_summary_matches_agg(s, resource_id);
    lemma_agg_count_is_users(s.ratings@, resource_id);
    assert forall|user_id: u128|
        users_with_rating(s.ratings@, resource_id).contains(user_id) <==> (find_rating(
        s.ratings@,
        resource_id,
        user_id,
    ) is Some) by {
        lemma_users_contains(s.ratings@, resource_id, user_id);
    }
}

} // verus!
