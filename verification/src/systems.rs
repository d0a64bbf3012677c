pub mod visibility;
