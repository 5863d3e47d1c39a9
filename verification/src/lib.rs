pub mod about;
pub mod links;
pub mod sound_order;
pub mod sounds;
pub mod text;
pub mod tray;
pub mod update;
