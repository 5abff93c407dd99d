//! Records kept in the database, and how the connection to it is addressed.
pub mod connect;
pub mod models;
