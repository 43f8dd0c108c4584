//! The decision logic of cuDF-accelerated query execution for DataFusion:
//! planner rules, operator state machines, type and schema handling, and the
//! enumerations shared with the cuDF C++ library.

pub mod aggregate;
pub mod aggregate_stream;
pub mod binary_op;
pub mod codes;
pub mod config;
pub mod datatype;
pub mod decimal;
pub mod expr;
pub mod load;
pub mod optimizer;
pub mod plan;
pub mod pinned;
pub mod planner;
pub mod sort;
pub mod sort_stream;
pub mod stream;
pub mod task_context;
