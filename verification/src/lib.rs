pub mod admin_check;
pub mod attachments;
pub mod cache;
pub mod car_class_to_body_type;
pub mod cars;
pub mod constants;
pub mod errors;
pub mod exlogging;
pub mod file_summary;
pub mod git;
pub mod invite;
pub mod keyed;
pub mod license_manager;
pub mod models;
pub mod money;
pub mod path_guard;
pub mod recency;
pub mod requests;
pub mod rows;
pub mod seasons;
pub mod t2;
pub mod table_processing;
pub mod table_validation;
pub mod tabular;
pub mod text;
pub mod transactionalfs;
pub mod tree;
pub mod utils;
