pub mod corr;
pub use self::corr::Corr;
