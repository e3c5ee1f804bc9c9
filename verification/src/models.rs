//! Data model of the engagement core: rating rows, the denormalized
//! statistics row, likes, comments, and the error taxonomy.
//!
//! Identifiers are opaque 128-bit values; timestamps are plain tick counts.
//! The statistics row keeps exact component sums next to the count, so the
//! averages are the exact rationals `sum / count` (undefined when the count
//! is zero).

use vstd::prelude::*;

verus! {

/// A user's rating of one resource. At most one row exists per
/// `(resource_id, user_id)` pair; resubmitting replaces the components in
/// place, keeping `id` and `created_at`.
#[derive(Clone, Copy, Debug, PartialEq, Eq, Structural)]
pub struct Rating {
    pub id: u128,
    pub resource_id: u128,
    pub user_id: u128,
    pub difficulty: i32,
    pub quality: i32,
    pub detail: i32,
    pub created_at: i64,
    pub updated_at: i64,
}

/// The payload of a rating submission.
#[derive(Clone, Copy, Debug, PartialEq, Eq, Structural)]
pub struct CreateRatingRequest {
    pub difficulty: i32,
    pub quality: i32,
    pub detail: i32,
}

/// What a caller gets back for a stored rating.
#[derive(Clone, Copy, Debug, PartialEq, Eq, Structural)]
pub struct RatingResponse {
    pub id: u128,
    pub resource_id: u128,
    pub user_id: u128,
    pub difficulty: i32,
    pub quality: i32,
    pub detail: i32,
    pub created_at: i64,
}

/// The denormalized statistics of one resource, as handed to callers:
/// the number of live rating rows and the exact sum of each component over
/// them. The average of a component is `sum / rating_count`, undefined when
/// `rating_count` is zero.
#[derive(Clone, Copy, Debug, PartialEq, Eq, Structural)]
pub struct RatingSummary {
    pub rating_count: usize,
    pub sum_difficulty: i128,
    pub sum_quality: i128,
    pub sum_detail: i128,
}

/// The stored statistics row of one resource; one row per `resource_id`.
/// Never written directly by a caller: recomputed from the rating rows after
/// every rating mutation.
#[derive(Clone, Copy, Debug, PartialEq, Eq, Structural)]
pub struct ResourceStats {
    pub resource_id: u128,
    pub rating_count: usize,
    pub sum_difficulty: i128,
    pub sum_quality: i128,
    pub sum_detail: i128,
}

/// A like row: its presence means "liked", its absence "not liked"; at most
/// one per `(resource_id, user_id)` pair.
#[derive(Clone, Copy, Debug, PartialEq, Eq, Structural)]
pub struct Like {
    pub resource_id: u128,
    pub user_id: u128,
    pub created_at: i64,
}

/// The like state of one resource as seen by one user.
#[derive(Clone, Copy, Debug, PartialEq, Eq, Structural)]
pub struct LikeStatusResponse {
    pub is_liked: bool,
    pub like_count: i64,
}

/// The outcome of toggling a like.
#[derive(Clone, Debug)]
pub struct LikeToggleResponse {
    pub is_liked: bool,
    pub like_count: i64,
    pub message: String,
}

/// A comment row. Body fields are out of scope here; what matters is who
/// authored it, since only the author or an administrator may delete it.
#[derive(Clone, Copy, Debug, PartialEq, Eq, Structural)]
pub struct Comment {
    pub id: u128,
    pub resource_id: u128,
    pub author_id: u128,
}

/// The error taxonomy of the engagement core.
#[derive(Clone, Copy, Debug, PartialEq, Eq, Structural)]
pub enum EngagementError {
    /// A submitted rating component fell outside `[1, 10]`; nothing was
    /// stored.
    OutOfRange,
    /// The store could not complete the write: its identifier space is
    /// spent.
    Storage,
    /// The requested entity does not exist.
    NotFound,
}

/// The outcome of a comment deletion request that found its comment.
#[derive(Clone, Copy, Debug, PartialEq, Eq, Structural)]
pub enum CommentOutcome {
    /// The requester was the author or an administrator; the row is gone.
    Deleted,
    /// The requester was neither; nothing was changed.
    Forbidden,
}

/// A rating component is accepted exactly when it lies in `[1, 10]`.
pub open spec fn valid_component(x: i32) -> bool {
    1 <= x <= 10
}

/// All three components of a submission lie in `[1, 10]`.
pub open spec fn valid_request(r: CreateRatingRequest) -> bool {
    valid_component(r.difficulty) && valid_component(r.quality) && valid_component(r.detail)
}

/// All three components of a stored rating lie in `[1, 10]`.
pub open spec fn valid_rating(r: Rating) -> bool {
    valid_component(r.difficulty) && valid_component(r.quality) && valid_component(r.detail)
}

/// The caller-facing view of a stored rating row.
pub open spec fn response_of(r: Rating) -> RatingResponse {
    RatingResponse {
        id: r.id,
        resource_id: r.resource_id,
        user_id: r.user_id,
        difficulty: r.difficulty,
        quality: r.quality,
        detail: r.detail,
        created_at: r.created_at,
    }
}

impl From<Rating> for RatingResponse {
    fn from(rating: Rating) -> (r: Self) {
        RatingResponse {
            id: rating.id,
            resource_id: rating.resource_id,
            user_id: rating.user_id,
            difficulty: rating.difficulty,
            quality: rating.quality,
            detail: rating.detail,
            created_at: rating.created_at,
        }
    }
}

impl vstd::std_specs::convert::FromSpecImpl<Rating> for RatingResponse {
    open spec fn obeys_from_spec() -> bool {
        true
    }

    open spec fn from_spec(rating: Rating) -> Self {
        response_of(rating)
    }
}

} // verus!
