pub use crate::nucleo::nombre_archivo::{NombreArchivo, NombreArchivoError};
pub use crate::nucleo::ruta::{ConfigRuta, ConfigRutaError, ErrorRuta, Ruta};
