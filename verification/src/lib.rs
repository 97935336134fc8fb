pub mod game;
pub mod util;
