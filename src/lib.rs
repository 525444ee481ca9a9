pub mod ascendancy;
pub mod geometry;
pub mod graph;
pub mod layout;
pub mod options;
pub mod order;
pub mod stu;
pub mod tree;
pub mod version;

pub use layout::build;
pub use options::Options;
pub use stu::SkillTreeUrl;
pub use version::Version;
