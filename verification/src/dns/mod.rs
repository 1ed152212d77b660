pub mod hosts;
