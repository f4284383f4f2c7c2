pub mod file_browser;
pub mod home;
pub mod images;
pub mod markdown;
pub mod new_vault_dialog;
pub mod settings;
pub mod sidebar;
pub mod styled;
pub mod tabs;
pub mod theme_editor;
pub mod wrap;
pub mod preview;
pub mod status;
pub mod editor_view;
pub mod extension_list;
