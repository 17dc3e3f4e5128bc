pub mod colors;
pub mod convert;
pub mod convert_channels;
pub mod convert_mutex;
pub mod convert_single_threaded;
pub mod image;
pub mod palette;
