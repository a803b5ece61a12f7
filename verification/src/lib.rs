//! Verified core of the Datalith workspace: tab and history bookkeeping, path identity,
//! text layout helpers, theme schema labels, shortcut tables and other decisions the
//! desktop shell delegates to this crate.

pub mod paths;
pub mod text;
pub mod tabs;
pub mod navigation;
pub mod workspace;
pub mod licenses;
pub mod notices;
pub mod theme_schema;
pub mod icons;
pub mod settings;
pub mod fonts;
pub mod theme_editor;
pub mod theme_page;
pub mod shortcuts;
pub mod todo;
pub mod monolith;
pub mod vault_session;
pub mod file_tree;
pub mod messages;
pub mod server_settings;
pub mod menu_session;
pub mod links;
pub mod startup;
pub mod rename;
