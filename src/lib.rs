pub mod naming;
pub mod repo;
pub mod state;
pub mod summary;
pub mod text;

pub use repo::GitPromptRepo;
