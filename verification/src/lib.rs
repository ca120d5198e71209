//! Parsing and querying of JUnit-style XML test reports.
//!
//! The library reads a report document into a typed tree of suites and test
//! cases, classifies each case into a single outcome, and derives aggregate
//! counters across suites and across files.

pub mod collect;
pub mod error;
pub mod model;
pub mod nav;
pub mod report;
pub mod text;
pub mod xml;

pub use collect::collect_reports;
pub use error::ParseError;
pub use model::Failure;
pub use model::Properties;
pub use model::Property;
pub use model::Skipped;
pub use model::TestCase;
pub use model::TestError;
pub use model::TestStatus;
pub use model::TestSuite;
pub use model::TestSuites;
pub use report::RootKind;
pub use report::detect_root;
pub use report::parse_str;
pub use nav::App;
pub use nav::FileReport;
pub use nav::Key;
pub use nav::KeyPress;
pub use nav::View;
pub use nav::handle_key;
pub use nav::truncate_str;
