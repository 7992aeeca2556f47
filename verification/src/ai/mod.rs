//! Building machine-learning models from a drawn graph of layers.
pub mod model_builder;
