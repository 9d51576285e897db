pub mod pick_features_by_boundingbox;
pub mod process_vertices_and_bends;
pub mod remove_near_points;
