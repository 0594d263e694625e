//! The logic of a desktop companion that shows one short observation at a time:
//! cleaning what a command-line model replies, judging candidates, building
//! prompts, driving a generation attempt by attempt, keeping the history, and
//! deciding when the next sentence is due.

pub mod cleaning;
pub mod clock;
pub mod generation;
pub mod laws;
pub mod prompt;
pub mod quality;
pub mod schedule;
pub mod search_path;
pub mod settings;
pub mod storage;
pub mod text;

pub use cleaning::clean;
pub use clock::ClockReading;
pub use generation::{generate, GenerateError, Generation, Step, Tool};
pub use quality::quality_issue;
pub use schedule::slot_for_settings;
pub use settings::{normalize_settings, normalize_sharpness, normalize_style, AppSettings};
pub use storage::DailyEntry;
