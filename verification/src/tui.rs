pub mod app;
