pub mod search_controller;
pub mod user_controller;
