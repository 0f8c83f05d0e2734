pub mod text;
pub mod json;
pub mod error;
pub mod subtitle;
pub mod ids;
pub mod bili;
pub mod wbi;
pub mod zhihu;
pub mod external;
pub mod webtext;
pub mod cli;
pub mod qr;
pub mod transcribe;
pub mod video;
pub mod window;
