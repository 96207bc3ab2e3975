# validador_imagenes

Validation of uploaded images and of the names and paths under which they
are stored, written in Verus: every rule is stated in a contract and proved.

## Layout

- `src/nucleo/nombre_archivo.rs`: the `NombreArchivo` value object and the
  rules a file name must meet; names generated from a random UUID v4.
- `src/nucleo/ruta.rs`: the base directory (`ConfigRuta`), the `Ruta` value
  object and the rules a stored path must meet (relative, no NUL, length
  limits, no `..`, inside the base directory), plus the decision of the
  symbolic-link check on resolved paths.
- `src/nucleo/camino.rs`: a model of how Unix paths split into components
  (`Path::components`), of file names and of extensions.
- `src/nucleo/validador.rs`: the image checks (extension, MIME type detected
  from the content, their agreement, size, format, animation, decoding,
  pixel count, dimensions, color mode) and their pipeline.
- `src/nucleo/externo.rs`: what the `image`, `infer` and `uuid` crates and
  Unicode case mapping compute, behind trusted items with named results.
- `src/nucleo/tamano.rs`: human-readable byte sizes, computed exactly with
  integers as double-precision formatting gives them.
- `src/nucleo/error_imagen.rs`: the validation error and its text.
- `src/nucleo/texto.rs`: string helpers (trimming, joining, decimals).
- `src/nucleo/leyes.rs`: properties of the library as a whole, proved.
- `app/`: what Verus does not check: reading files and the environment,
  resolving paths on disk, the floating-point parts (aspect ratio,
  megapixels) and the error types with `Display`.
- `tests/`: tests run against the compiled library.
