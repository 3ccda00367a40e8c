//! A columnar mapping engine: it ingests tabular cell data and a declarative
//! field-mapping definition, substitutes `${alias}` placeholders in template
//! expressions with cell values, coerces the results to their declared types,
//! and assembles ordered output records with all-or-nothing batch semantics.

pub mod app_config;
pub mod cli;
pub mod numeric;
pub mod scanner;
pub mod session;
pub mod task_list;
pub mod template_mapping;
pub mod text;
pub mod value;
