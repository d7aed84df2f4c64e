//! Core logic of a browser-automation agent: element labeling, instruction
//! classification, label negotiation with a completion service, a typed job
//! model with a retrying executor, a bounded interaction memory, and the
//! planner's response parsing. All decision logic is verified; the browser
//! transport and the completion service are reached only through thin,
//! clearly-marked trusted wrappers or left to an unverified driver.

pub mod classify;
pub mod codec;
pub mod dom;
pub mod executor;
pub mod js;
pub mod jobs;
pub mod memory;
pub mod negotiate;
pub mod planner;
pub mod session;
pub mod strutil;
pub mod types;

pub use jobs::BrowserJob;
pub use memory::AgentMemory;
pub use memory::MemoryEntry;
pub use planner::AgentPlan;
pub use types::BrowserError;
pub use types::BrowserOptions;
pub use types::InteractiveElement;
pub use types::InteractiveElementType;
pub use types::MemoryOptions;
pub use types::TextElement;
