//! Boundary-crossing machinery for a waveform-trace viewer back end: a seekable
//! byte source over a size-limited host read, a paginated hierarchy index, a
//! transition encoder, a chunk reassembler and the time-table analysis.

pub mod byte_source;
pub mod chunks;
pub mod codec;
pub mod hierarchy;
pub mod loader;
pub mod pagination;
pub mod reassembly;
pub mod remote;
pub mod text;
pub mod time_table;
pub mod transitions;
pub mod values;

pub use hierarchy::{get_scope_data, get_var_data, ScopeData, VarData};
pub use remote::{ChunkType, SurferRemote, SurferStatus};
