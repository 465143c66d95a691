//! Laws: what holds of the library as a whole, proved from the contracts of its parts.

pub mod bitmaps;
pub mod blocks;
pub mod choosing;
pub mod colors;
pub mod devices;
pub mod drivers;
pub mod entries;
pub mod files;
pub mod heads;
pub mod jpegs;
pub mod pixels;
pub mod pumping;
pub mod reconnecting;
pub mod responses;
pub mod running;
pub mod scanning;
pub mod settings;
pub mod sharpness;
