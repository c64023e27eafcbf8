//! The media restructure engine: from a scan of downloaded files to a
//! confirmed batch of moves.

pub mod builder;
pub mod collision;
pub mod execute;
pub mod listing;
pub mod metadata;
pub mod operations;
pub mod oracle;
pub mod pairing;
pub mod pathgen;
pub mod present;
pub mod reply;
pub mod runs;

pub use builder::{BuildAction, BuildEvent, DirectoryError, PlanBuilder};
pub use execute::{summarize_moves, IoOutcome, MoveAction, MoveExecutor};
pub use collision::{resolve_collision, Resolution};
pub use listing::{find_matching_subtitles, DirEntry, EntryKind};
pub use metadata::{EpisodeValue, GuessitMetadata};
pub use oracle::{oracle_answer, oracle_output, OracleError, OracleRun};
pub use operations::{MoveOperation, RestructurePlan};
pub use present::format_restructure_plan;
pub use reply::{interpret_reply, parse_restructure_reply, ReplyError};
