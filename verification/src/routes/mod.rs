//! What requests ask for and how they are answered.

pub mod library;
pub mod notifications;
pub mod proxy;
pub mod rooms;
