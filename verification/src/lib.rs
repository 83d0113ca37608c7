pub mod bounded;
pub mod env;
pub mod fs;
pub mod helper;
pub mod text;
pub mod vdu;
pub mod net;
pub mod path;
pub mod rt;
pub mod sys;
pub mod wimp;
