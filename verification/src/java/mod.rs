//! The Java code model and everything that turns it into source text, and
//! the Maven build descriptor with its writer.

pub mod annotation;
pub mod imports;
pub mod java_pom;
pub mod java_pom_writer;
pub mod java_source_code;
pub mod java_source_writer;
pub mod layout;
pub mod layout_lemmas;
pub mod modifier;
pub mod names;
pub mod pom;
pub mod template;
pub mod xml;

pub use annotation::{JavaAnnotationAttribute, JavaAnnotationDeclaration, ValueType};
pub use imports::discover_imports;
pub use java_pom::{Build, Dependency, Exclusion, Plugin, Property, POM};
pub use java_pom_writer::POMWriter;
pub use java_source_code::{
    JavaCompilationUnit,
    JavaFieldDeclaration,
    JavaLanguage,
    JavaMethodDeclaration,
    JavaMethodParameter,
    JavaSourceCode,
    JavaSourceStructure,
    JavaTypeDeclaration,
};
pub use java_source_writer::{
    emit_compilation_unit,
    CompilationUnitWriter,
    EmitError,
    IndentedBlock,
    JavaSourceCodeWriter,
    JavaSourceFile,
};
pub use modifier::Modifier;
pub use names::{get_unqualified_name, is_import_type};
pub use pom::{MavenRepository, POMBuilder};
pub use template::{JavaMethodStatement, TemplateError};
