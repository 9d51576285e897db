pub mod convex_hull;
