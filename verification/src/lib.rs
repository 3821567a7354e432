pub mod accessibility;
pub mod bottom_panel;
pub mod browser;
pub mod connection;
pub mod credentials;
pub mod diagnostics;
pub mod keyboard;
pub mod lifecycle;
pub mod local_path;
pub mod menus;
pub mod message;
pub mod number;
pub mod openssh_import;
pub mod path_tables;
pub mod plans;
pub mod preparation;
pub mod profile;
pub mod profile_editor;
pub mod profile_list;
pub mod quick_commands;
pub mod redaction;
pub mod remote_files;
pub mod remote_path;
pub mod sequences;
pub mod session;
pub mod session_events;
pub mod settings;
pub mod sftp_flow;
pub mod sftp_view;
pub mod terminal_fonts;
pub mod text;
pub mod text_format;
pub mod text_set;
pub mod transfers;
pub mod window;
