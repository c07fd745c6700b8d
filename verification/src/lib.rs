//! The verified core of the LightSpeed editor shell.
//!
//! Everything here is a function of plain values: what a key press resolves
//! to, which rows a panel shows, how a message is framed, what a frame is
//! composed of.  Windows, pixels, processes and files live in the program
//! around this library.

pub mod args;
pub mod big;
pub mod clock;
pub mod clusters;
pub mod compose;
pub mod depcache;
pub mod depgraph;
pub mod devpanel;
pub mod floats;
pub mod focus;
pub mod frame;
pub mod framing;
pub mod icons;
pub mod json;
pub mod keymap;
pub mod keys;
pub mod lifecycle;
pub mod lists;
pub mod lsp;
pub mod markdown;
pub mod menu;
pub mod numbers;
pub mod overlay;
pub mod palette;
pub mod pointer;
pub mod quads;
pub mod redraw;
pub mod regions;
pub mod requests;
pub mod resources;
pub mod rich;
pub mod settings;
pub mod shell;
pub mod sidebar;
pub mod status;
pub mod terminal;
pub mod text;
pub mod wording;
