//! Mihon Desktop's interface logic: navigation, reader paging, library and
//! chapter ordering, and the text the screens show, with their contracts.

pub mod browse;
pub mod capture;
pub mod chapters;
pub mod details;
pub mod extensions;
pub mod dialog;
pub mod downloads;
pub mod format;
pub mod history;
pub mod library;
pub mod model;
pub mod nav;
pub mod order;
pub mod reader;
pub mod session;
pub mod settings;
pub mod source_browse;
pub mod statistics;
pub mod text;
pub mod theme;
pub mod time;
pub mod updates;
pub mod window;
