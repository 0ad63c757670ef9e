//! The life of a query on one helper: the registry of query states and the
//! processor that moves a query through them.

pub mod completion;
pub mod processor;
pub mod state;

pub use completion::Handle as CompletionHandle;
pub use processor::{
    NewQueryError, PrepareQueryError, Processor, QueryCompletionError, QueryInputError,
    QueryStatusError,
};
pub use state::{QueryResult, QueryState, QueryStatus, RemoveQuery, RunningQueries, RunningQuery, StateError};
