pub mod word_loader;
pub mod word_picker;
