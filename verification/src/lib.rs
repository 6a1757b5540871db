//! A verified log archive: the on-disk formats, the recorder, the replayer and the metadata
//! indexer of an append-only archive of published samples.

pub mod adapter;
pub mod admin_tool;
pub mod align;
pub mod align_laws;
pub mod bytes;
pub mod catalog;
pub mod checkpoint;
pub mod checksum;
pub mod command;
pub mod commit_entry;
pub mod commit_log;
pub mod config;
pub mod control_tool;
pub mod count_laws;
pub mod error;
pub mod format_laws;
pub mod frame;
pub mod guarantees;
pub mod header;
pub mod history;
pub mod index_laws;
pub mod indexer;
pub mod io_queue;
pub mod layout;
pub mod lifecycle;
pub mod log_cap;
pub mod maintenance;
pub mod metadata;
pub mod numbering;
pub mod order;
pub mod query_answer;
pub mod queue_laws;
pub mod query_laws;
pub mod query_tool;
pub mod reading_laws;
pub mod record_index;
pub mod record_tool;
pub mod recorder;
pub mod recorder_laws;
pub mod recovery;
pub mod refused_append;
pub mod replay_laws;
pub mod replayer_laws;
pub mod replay_tool;
pub mod replayer;
pub mod retention;
pub mod retention_laws;
pub mod sample_laws;
pub mod segment;
pub mod selectors;
pub mod startup;
pub mod startup_laws;
pub mod state;
pub mod state_laws;
pub mod store;
pub mod summary;
pub mod text;
pub mod tool_laws;
pub mod types;
