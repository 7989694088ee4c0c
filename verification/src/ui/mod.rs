pub mod services;
pub mod sidebar;
pub mod statusbar;
