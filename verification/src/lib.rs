pub mod game;
pub mod grid;
pub mod laws;
pub mod population;
pub mod random;
pub mod selection;
pub mod snake;
pub mod topology;
