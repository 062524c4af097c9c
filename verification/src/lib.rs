//! The verified core of `pgun`, a terminal manager for local-forward SSH tunnels.
//!
//! Everything that decides is here: which configurations are accepted, what each key does, how a
//! tunnel goes from start to end, and what is drawn. Reading files, running `ssh` and painting
//! the terminal are left to the program around it.
pub mod config;
pub mod effect;
pub mod manager;
pub mod seqs;
pub mod table;
pub mod text;
pub mod tunnel;
pub mod ui;
