pub mod column_config;
pub mod header;
pub mod table;
