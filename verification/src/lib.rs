//! The decisions behind a desktop window around `dsh web`: which address to show,
//! which version to move to, what to tell the user, and what to run next.
pub mod text;
pub mod scan;
pub mod version;
pub mod version_laws;
pub mod json;
pub mod channels;
pub mod ansi;
pub mod address;
pub mod theme;
pub mod status;
pub mod check;
pub mod decode;
pub mod process;
pub mod log;
pub mod boot;
pub mod home;
pub mod upgrade;
pub mod dialog;
pub mod shell_update;
pub mod tray;
pub mod tray_check;
pub mod scan_laws;
pub mod order_laws;
pub mod summary_laws;
pub mod address_laws;
pub mod process_laws;
pub mod log_laws;
pub mod home_laws;
pub mod check_laws;
pub mod boot_laws;
pub mod upgrade_laws;
pub mod dialog_laws;
pub mod tray_laws;
