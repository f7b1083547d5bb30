//! The operations of the store.

pub mod apply;
pub mod apply_laws;
pub mod apply_rows;
pub mod batch_laws;
pub mod blob_column;
pub mod blob_laws;
pub mod fetch;
pub mod fetch_laws;
pub mod lookup;
pub mod lookup_laws;
pub mod merge;
pub mod plan_laws;
pub mod read;
pub mod read_laws;
pub mod round_trip;
pub mod row_laws;
pub mod run;
pub mod run_again;
pub mod run_laws;
pub mod run_phases;
pub mod run_twice;
pub mod run_users;
pub mod sequential;
pub mod statement_laws;
pub mod step_laws;
pub mod store;
pub mod sync_row;
pub mod upsert;
