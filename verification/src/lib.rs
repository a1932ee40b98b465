pub mod db;
pub mod ops;
pub mod plan;
pub mod schema;
pub mod text;
pub mod values;
