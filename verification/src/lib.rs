//! Listing the installed packages of a package manager, marking some of them
//! and removing them: reading the listings, the answers of the terminal user
//! interface to keys and to a running removal, and what each frame shows.
pub mod app;
pub mod managers;
pub mod text;
pub mod ui;
