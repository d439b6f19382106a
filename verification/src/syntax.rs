pub mod reference;
