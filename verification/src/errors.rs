//! The error taxonomy of the tool, and the rule that maps a failed read of
//! the configuration file to one of its kinds.

use vstd::prelude::*;

verus! {

/// Everything that can go wrong, either while loading the configuration or
/// while scanning one target. A scan-level error is terminal for its target
/// only; it never aborts the run.
#[derive(Debug, Clone, Copy, PartialEq, Eq, Structural)]
pub enum AppError {
    /// The configuration file could not be read or parsed.
    ConfigLoadError,
    /// The configuration file does not exist.
    FileDoesNotExist,
    /// The configuration file exists but may not be read.
    FileInaccessible,
    /// The transport failed: retries exhausted, or a non-retryable cause.
    RequestError,
    /// The connection succeeded but the response body could not be read.
    ResponseBodyError,
    /// The title selector could not be built (defensive; the selector is a
    /// constant and normally always parses).
    HtmlParsingError,
}

impl AppError {
    /// The user-facing description of this error.
    pub open spec fn message_view(self) -> Seq<char> {
        match self {
            AppError::ConfigLoadError => "Error al cargar el archivo de configuración."@,
            AppError::FileDoesNotExist => "El archivo config.json no existe."@,
            AppError::FileInaccessible => "No se puede acceder al archivo config.json. Verifica los permisos."@,
            AppError::RequestError => "Error de conexion"@,
            AppError::ResponseBodyError => "Error al obtener el body."@,
            AppError::HtmlParsingError => "Error al parsear el HTML."@,
        }
    }

    /// Renders the user-facing description of this error.
    pub fn message(&self) -> (r: String)
        ensures
            r@ == self.message_view(),
    {
        match self {
            AppError::ConfigLoadError => "Error al cargar el archivo de configuración.".to_owned(),
            AppError::FileDoesNotExist => "El archivo config.json no existe.".to_owned(),
            AppError::FileInaccessible => "No se puede acceder al archivo config.json. Verifica los permisos.".to_owned(),
            AppError::RequestError => "Error de conexion".to_owned(),
            AppError::ResponseBodyError => "Error al obtener el body.".to_owned(),
            AppError::HtmlParsingError => "Error al parsear el HTML.".to_owned(),
        }
    }
}

/// Classifies a failed read of the configuration file: a missing file and a
/// permission problem each get their own error; every other cause is the
/// generic loading error.
pub fn classify_read_failure(not_found: bool, permission_denied: bool) -> (r: AppError)
    ensures
        r == (if not_found {
            AppError::FileDoesNotExist
        } else if permission_denied {
            AppError::FileInaccessible
        } else {
            AppError::ConfigLoadError
        }),
{
    if not_found {
        AppError::FileDoesNotExist
    } else if permission_denied {
        AppError::FileInaccessible
    } else {
        AppError::ConfigLoadError
    }
}

} // verus!
