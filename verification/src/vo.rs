//! Request and response shapes of the handlers.

pub mod menu_vo;
pub mod role_vo;
pub mod user_vo;
