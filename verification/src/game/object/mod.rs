pub mod pos;
