pub mod collect_bounding_boxes;
pub mod collect_convex_boundingboxes;
pub mod concatenate_features;
pub mod domain;
pub mod generation;
pub mod geometry;
pub mod grouping;
pub mod json;
pub mod pick_features_by_boundingbox;
pub mod process_vertices_and_bends;
pub mod processing;
pub mod raw;
pub mod raw_parallel;
pub mod raw_serde;
pub mod utils;
