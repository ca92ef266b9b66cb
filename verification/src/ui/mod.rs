//! Terminal user interfaces over USB serial: what each frame draws, and how the
//! interface reacts to its terminal and to its user.
pub mod draw;
pub mod march;
pub mod panel;
pub mod terminal;
