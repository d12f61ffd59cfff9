pub mod game;
pub mod input;
pub mod messages;
pub mod player;
pub mod player_ai;
