pub mod greeting;
pub mod store;
pub mod schema;
pub mod migration;
pub mod initial;
pub mod sql;
