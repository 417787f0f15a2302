//! Recent VS Code folders: parsing the history, classifying remotes,
//! filtering, and the decisions of the picker window.

pub mod text;
pub mod decode;
pub mod remote;
pub mod history;
pub mod theme;
pub mod filter;
pub mod groups;
pub mod picker;
pub mod window;
pub mod recent;
pub mod launch;
