pub mod camino;
pub mod error_imagen;
pub mod externo;
pub mod leyes;
pub mod nombre_archivo;
pub mod ruta;
pub mod tamano;
pub mod texto;
pub mod validador;

pub use nombre_archivo::{NombreArchivo, NombreArchivoError, ValidadorNombreArchivo};
pub use ruta::{ConfigRuta, ConfigRutaError, DirectorioImagenes, ErrorRuta, Ruta, ValidadorRuta};
pub use error_imagen::ImagenValidationError;
pub use tamano::formatear_bytes;
pub use validador::{eliminar_exif, obtener_extension, InspeccionImagen, ReglasImagen};
