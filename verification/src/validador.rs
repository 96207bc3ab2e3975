pub use crate::nucleo::error_imagen::ImagenValidationError;
pub use crate::nucleo::externo::{FormatoImagen, TipoColor};
pub use crate::nucleo::tamano::formatear_bytes;
pub use crate::nucleo::validador::{eliminar_exif, obtener_extension, InspeccionImagen, ReglasImagen};
