pub mod nucleo;
pub mod validador;
pub mod vo;
