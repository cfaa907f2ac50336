//! An in-memory geometric model: points in homogeneous coordinates joined by
//! line segments.
//!
//! Points and lines must reference each other in both directions (each point
//! records the lines incident to it, so deleting a point can cascade-delete
//! those lines), which direct references would turn into ownership cycles.
//! Instead, both live in flat ordered maps keyed by strictly positive integer
//! handles, and every cross-reference is a plain handle looked up at use time.

mod laws;
mod model;

pub use laws::lemma_add_line_records_incidence;
pub use laws::lemma_del_line_idempotent;
pub use laws::lemma_del_line_removes;
pub use laws::lemma_del_point_cascades;
pub use laws::lemma_del_point_idempotent;
pub use laws::lemma_handles_strictly_increase;
pub use model::fresh_handle;
pub use model::point_views;
pub use model::spec_add_line;
pub use model::spec_add_point;
pub use model::spec_del_line;
pub use model::spec_del_point;
pub use model::with_incident;
pub use model::Line;
pub use model::Model;
pub use model::ModelView;
pub use model::Point;
pub use model::PointView;
