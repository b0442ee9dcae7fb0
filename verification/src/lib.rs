//! Detection of uncommon scripts and language hints in lines of text.
pub mod lang;
pub mod output;
pub mod scanner;
pub mod text;
