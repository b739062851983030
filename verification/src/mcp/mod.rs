pub mod tools;
