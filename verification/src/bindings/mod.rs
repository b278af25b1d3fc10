pub mod js;
pub mod py;
