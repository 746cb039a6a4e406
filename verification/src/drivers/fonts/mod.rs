pub mod color;
pub mod psf_font;
pub mod text_writer;
pub mod ansii_parser;
