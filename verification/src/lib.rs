pub mod assets;
pub mod auth;
pub mod digest;
pub mod keyed;
pub mod minecraft;
pub mod text;
