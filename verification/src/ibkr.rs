pub mod configuration;

pub use configuration::IbClientConfig;
pub mod reported;
