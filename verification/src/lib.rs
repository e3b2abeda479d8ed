//! A profile-document renderer's verified core: the transformation pipeline
//! applied to fetched activity records, the typed resolution of template call
//! arguments, and the state machine of a single render pass.

pub mod cli;
pub mod feed;
pub mod github;
pub mod template;
pub mod transform;
