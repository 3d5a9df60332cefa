pub mod md5;
pub mod registrar;
pub mod credentials;
