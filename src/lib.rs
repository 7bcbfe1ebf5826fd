pub mod arrange;
pub mod columns;
pub mod command_handler;
pub mod dispatch;
pub mod event_handler;
pub mod message;
pub mod model;
pub mod repository;
pub mod shared_state;
pub mod shell;
pub mod state;
pub mod system;
