pub mod keymap;
pub mod pointer;
