//! Engagement core of a resource-sharing platform: per-user ratings with
//! denormalized per-resource statistics, likes, and ownership-checked
//! comment deletion.
//!
//! The store keeps three relations (ratings, statistics, comments) and
//! maintains the invariants stated in [`store::EngagementStore::wf`]:
//! at most one rating per `(resource, user)` pair, every stored component in
//! `[1, 10]`, and every statistics row equal to the aggregate of the live
//! rating rows for its resource.

pub mod comment_service;
pub mod laws;
pub mod models;
pub mod rating_service;
pub mod relation;
pub mod store;

pub use comment_service::CommentService;
pub use models::CommentOutcome;
pub use models::CreateRatingRequest;
pub use models::EngagementError;
pub use models::Rating;
pub use models::RatingResponse;
pub use models::RatingSummary;
pub use rating_service::RatingService;
pub use store::EngagementStore;
