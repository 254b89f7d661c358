pub mod game_mode;
