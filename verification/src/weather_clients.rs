pub mod open_weather;
pub mod weatherbit;
