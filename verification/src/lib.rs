pub mod button;
pub mod element;
pub mod focus;
pub mod grid;
pub mod identity;
pub mod menubar;
pub mod minefield;
pub mod minesweeper;
pub mod popups;
mod rng;
