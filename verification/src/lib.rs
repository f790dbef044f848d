pub mod text;
pub mod game_data;
pub mod game_list;
pub mod settings;
pub mod release;
pub mod game_state;
pub mod api;
pub mod install;
pub mod provider;
pub mod logs;
pub mod cli;
pub mod search_input;
pub mod process;
