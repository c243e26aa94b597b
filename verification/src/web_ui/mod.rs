pub mod html_templates;
pub mod server;
pub mod templetization;
pub mod views;
