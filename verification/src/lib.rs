pub mod parse;
pub mod run;
mod sys;
