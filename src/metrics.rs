pub mod qoe;
