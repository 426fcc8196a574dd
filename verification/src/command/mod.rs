pub mod dispatch;
pub mod handlers;
pub mod mkdir;
pub mod profile;
pub mod register;
pub mod session;
