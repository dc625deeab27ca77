pub mod order;
pub mod strmap;
pub mod text;
pub mod url;

pub use strmap::StrMap;
pub use url::merge_url;
