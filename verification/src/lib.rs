//! The terminal front end of Laozhou: everything between a key press, a daemon
//! frame or a log line and what is drawn for it, as plain verified functions.
pub mod about;
pub mod answers;
pub mod args;
pub mod attachments;
pub mod chat;
pub mod clock;
pub mod commands;
pub mod daemon;
pub mod daemon_log;
pub mod direct;
pub mod echo;
pub mod edit;
pub mod editor;
pub mod footer;
pub mod frame;
pub mod help;
pub mod history;
pub mod inputbox;
pub mod jobs;
pub mod json;
pub mod keyboard;
pub mod knowledge;
pub mod lang;
pub mod layout;
pub mod live;
pub mod menu;
pub mod mode;
pub mod models;
pub mod notes;
pub mod notices;
pub mod paste;
pub mod picker;
pub mod placeholder;
pub mod placement;
pub mod pop;
pub mod remote;
pub mod repl;
pub mod replay;
pub mod sanitize;
pub mod screen;
pub mod session;
pub mod setup;
pub mod skills;
pub mod tail;
pub mod text;
pub mod tokens;
pub mod transfer;
pub mod usage;
pub mod variant;
pub mod voice;
pub mod width;
