use vstd::prelude::*;

pub mod date;
pub mod text;
pub mod json;
pub mod strmap;
pub mod protocol;
pub mod form;
pub mod defaults;
pub mod a2ui;
pub mod agui;
pub mod banner;
pub mod color;
pub mod session;
pub mod markdown;
pub mod window;
pub mod server;
pub mod widgets;
pub mod format;
