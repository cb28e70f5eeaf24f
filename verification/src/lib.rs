//! Domain name suggestion and availability logic: prompt construction and
//! parsing of model replies, TLD expansion, availability decisions for the
//! supported lookup services, credential and settings state.

pub mod text;
pub mod json;
pub mod llm;
pub mod domain;
pub mod strmap;
pub mod credentials;
pub mod http;
pub mod ui;
pub mod worker;
