pub mod icons;
pub mod main;
pub mod modals;
pub mod sidebar;
