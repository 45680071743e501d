//! Core of a small version manager: user-defined categories (such as
//! `nodejs` or `java`), the installed versions of each, and which one is
//! active. Switching versions rebuilds one link per category, which sits
//! on the user's `PATH`.

pub mod env;
pub mod keys;
pub mod laws;
pub mod link;
pub mod model;
pub mod paths;
pub mod strmap;
pub mod snippet;
pub mod switch;
pub mod text;

pub use env::{add_to_user_path, remove_from_user_path};
pub use link::{cleanup_category_dir, init_category_dir, link_active_bin};
pub use model::{Category, Config, VersionEntry, VmError};
pub use paths::{bin_subdir, category_dir, config_path};
pub use snippet::{path_snippet, ShellKind};
pub use strmap::StrMap;
pub use switch::{
    add_category, add_version, bin_dir_candidate, current_version, edit_category, edit_version,
    list_categories, list_versions, normalize_bin, remove_category, remove_version,
    resolve_bin_dir, use_version,
};
