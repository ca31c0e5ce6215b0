//! A small content-search library: walk a file tree, skip ignored paths,
//! match each file's lines against a compiled pattern, and render the
//! results in one of three display modes.

pub mod ignore;
pub mod matcher;
pub mod pattern;
pub mod pipeline;
pub mod render;
pub mod text;
pub mod walker;

pub use ignore::IgnoreSet;
pub use ignore::get_ignored_files_from_config;
pub use ignore::get_things_you_should_ignore;
pub use matcher::FileResult;
pub use matcher::matching_lines;
pub use matcher::search_files;
pub use pattern::Pattern;
pub use pipeline::get_opts;
pub use pipeline::run_search;
pub use render::DisplayMode;
pub use render::display_output;
pub use render::get_display_mode;
pub use text::split_lines;
pub use text::usize_to_string;
pub use walker::FsEntry;
pub use walker::collect_files;
pub use walker::get_files;
