//! Query building, connection settings and benchmark bookkeeping for the
//! websubmit server that runs on top of a MySQL database.
pub mod text;
pub mod decimal;
pub mod sql;
pub mod parsed_url;
pub mod connect;
pub mod retry;
pub mod routes;
pub mod form;
pub mod bench;
pub mod prime;
pub mod driver;
