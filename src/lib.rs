//! Classification of where a distribution's artifact lives (a registry file, a
//! remote archive, or a Git checkout), its reconstruction as a URL and as a
//! direct-URL provenance record, and the folding of `:all:` / `:none:` / name
//! directives into one package selection.

pub mod weburl;
pub mod source;
pub mod name_specifiers;
