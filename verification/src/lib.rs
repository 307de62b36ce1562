//! A configurable directory-tree traversal engine.
//!
//! A [`FileWalker`] is configured with a root location, depth bounds,
//! callbacks and [`Predicate`]s. The traversal itself is a small state
//! machine: the caller performs the directory reads that the walker asks for
//! and reports what it found; the walker decides, entry by entry, whether to
//! descend, to dispatch a file to the callbacks, to skip, or to stop.

pub mod checks;
pub mod laws;
pub mod model;
pub mod pattern;
pub mod predicate;
pub mod walker;

pub use checks::file_contains;
pub use checks::file_excludes;
pub use checks::file_excludes_format;
pub use checks::file_includes;
pub use checks::file_includes_format;
pub use checks::file_is_format;
pub use checks::parent_contains;
pub use checks::parent_excludes;
pub use checks::parent_includes;
pub use pattern::Pattern;
pub use predicate::Predicate;
pub use predicate::Role;
pub use walker::Action;
pub use walker::Event;
pub use walker::FileWalker;
pub use walker::FileWalkerView;
pub use walker::WalkState;
