//! A read-only file system that shows the music of a Subsonic server: artists as folders, their
//! albums as folders in them, and songs as files.
//!
//! The library decides what the file system shows and how it answers requests. Talking to the
//! server, to Windows and to the Dokan driver is up to the program around it.

// The server's music, sorted into folders.
pub mod catalogue;
pub mod subsonic;

// Names, texts and numbers.
pub mod fields;
pub mod names;
pub mod nt;
pub mod text;
pub mod wide;

// The tree below the root, and what is kept about its entries.
pub mod handle;
pub mod path;
pub mod security;
pub mod stat;
pub mod tree;

// The file system and its answers.
pub mod handler;
pub mod offering;
pub mod opening;
pub mod requests;
pub mod updates;

// What holds of them.
pub mod answer_laws;
pub mod constant_laws;
pub mod folder_laws;
pub mod grouping_laws;
pub mod handler_laws;
pub mod name_laws;
pub mod place_laws;
pub mod song_laws;
pub mod text_laws;
