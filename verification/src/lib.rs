//! Screenshots, recordings and annotations: the logic of a capture tool.
pub mod app;
pub mod blur;
pub mod canvas;
pub mod capture;
pub mod cli;
pub mod clock;
pub mod compose;
pub mod config;
pub mod countdown;
pub mod daemon;
pub mod editor;
pub mod editor_laws;
pub mod editor_state;
pub mod export;
pub mod fit;
pub mod flash;
pub mod gesture_laws;
pub mod history;
pub mod imaging;
pub mod library;
pub mod overlay;
pub mod paint_laws;
pub mod path_laws;
pub mod paths;
pub mod picker;
pub mod picture_laws;
pub mod pixmap;
pub mod raster;
pub mod recorder;
pub mod redact;
pub mod selection_laws;
pub mod service_laws;
pub mod shapes;
pub mod shelf_laws;
pub mod single;
pub mod text;
pub mod toast;
pub mod toast_laws;
pub mod units;
pub mod view_laws;
pub mod window_laws;
pub mod wording_laws;
