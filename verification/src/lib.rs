//! Assembly of business documents: invoices and quotations are put together as
//! typesetting markup from a layered configuration, a word dictionary and a
//! persisted store of contacts and earlier documents.

pub mod decimal;
pub mod errors;
pub mod sorted;
pub mod text;
pub mod value;
pub mod config;
pub mod date;
pub mod lang;
pub mod codegen;
pub mod contact;
pub mod doctype;
pub mod data;
pub mod lifecycle;
pub mod style;
pub mod fonts;
pub mod world;
pub mod interface;
