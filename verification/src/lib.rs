//! A ClickHouse backend for an MCP gateway.
//!
//! A binding is one operator-fixed SQL statement, or one listing of the server's
//! tables or columns. [`profile`] says which bindings are accepted, [`plugin`] keeps
//! them, and [`call`] and [`listing`] say what each request runs and how it is
//! answered. Values from a caller reach the server as bound values alone, which
//! [`engine`] and [`driver`] state and prove. [`watch`] polls a query for changes,
//! [`observe`] tells of calls that failed, and [`envelope`] and [`surface`] shape the
//! answers.
pub mod call;
pub mod driver;
pub mod engine;
pub mod envelope;
pub mod json;
pub mod listing;
pub mod observe;
pub mod params;
pub mod plugin;
pub mod profile;
pub mod surface;
pub mod text;
pub mod types;
pub mod watch;
