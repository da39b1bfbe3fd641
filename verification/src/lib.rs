//! Layout resolution for a small monitoring dashboard.
//!
//! A dashboard is declared as a tree of rows, columns and leaf widgets
//! (`config`). Resolving the tree gives each leaf its place on a grid
//! (`model`); what that place is, as a function of the tree, is stated in
//! `layout`, and what follows for every tree is proved in `laws`.
//!
//! Around the layout stand the smaller rules of the program: which readings
//! a widget is drawn from and what becomes of a pushed reading
//! (`controller`, `view`), how a row of a readings file is read (`csv`), and
//! which names are accepted on the command line (`cli`).

pub mod cli;
pub mod config;
pub mod controller;
pub mod csv;
pub mod laws;
pub mod layout;
pub mod model;
pub mod view;
