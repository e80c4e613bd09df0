pub mod export;
pub mod pagination;
pub mod query;
pub mod record;
pub mod sink;
pub mod window;
