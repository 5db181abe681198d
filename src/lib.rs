//! Desktop window surfaces: walking the z-order from a window, reducing the
//! windows found to the outermost ones, and finding the window at a point.
pub mod geometry;
pub mod lister;
pub mod reduce;
pub mod window;

pub use geometry::{Rect, WindowBounds};
pub use lister::{WindowLister, WindowProbe, ZOrder, MIN_EXTENT};
pub use reduce::filter_impurities;
pub use window::JsDesktopWindowInfo;
