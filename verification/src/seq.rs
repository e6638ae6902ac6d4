pub mod inner;
pub mod scalar_series;
pub mod series;
pub mod span_series;
pub mod timeseries;
