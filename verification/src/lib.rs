pub mod audio;
pub mod bluetooth;
pub mod bytes;
pub mod client;
pub mod command;
pub mod disk;
pub mod dispatch;
pub mod display;
pub mod event;
pub mod execute;
pub mod gather;
pub mod json;
pub mod name_map;
pub mod network;
pub mod number;
pub mod path;
pub mod plugin;
pub mod power;
pub mod resources;
pub mod session;
pub mod state;
pub mod text;
pub mod usb;
