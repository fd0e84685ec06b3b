//! Tee-time search across several golf booking platforms, normalised into
//! one record shape.

pub mod text;
pub mod structs;
pub mod courses;
pub mod clock;
pub mod request;
pub mod book_a_tee_time;
pub mod golfback;
pub mod foreup;
pub mod teeitup;
pub mod tee_time_service;
