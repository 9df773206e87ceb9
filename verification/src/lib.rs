//! Item-lifecycle orchestrator for an image analysis front end.
//!
//! The library tracks every submitted image as it moves from "waiting to
//! send" through "waiting for a response" to "analyzed" or "failed", batches
//! pending items into outbound analysis requests on each timer tick,
//! reconciles asynchronous responses back onto the items of the matching
//! batch, and drives an independent per-item archive-upload flow with its
//! own success/failure notifications.
//!
//! All network traffic, timers and rendering live outside the library: a
//! driver calls [`orchestrator::Orchestrator::tick`], performs one exchange
//! per returned batch, and hands the outcome back through
//! [`orchestrator::Orchestrator::analysis_request_completed`]; the upload
//! flow works the same way through `start_upload` / `finish_upload`.

pub mod item;
pub mod label;
pub mod laws;
pub mod notify;
pub mod orchestrator;
pub mod reconcile;
pub mod schedule;
pub mod store;
pub mod upload;
