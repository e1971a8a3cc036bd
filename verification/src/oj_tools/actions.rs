pub mod gen;
pub mod pull;
pub mod run;
pub mod test;
