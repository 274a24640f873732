use vstd::prelude::*;

pub mod text;
pub mod csv;
pub mod inflection;
pub mod error;
pub mod seeds;
pub mod entry;
pub mod csv_import;
pub mod hjson_scan;
pub mod export;
pub mod command;
pub mod doctor;
pub mod typst_doc;
pub mod export_plan;
pub mod import_plan;
pub mod dialect;
pub mod lexgen;
pub mod interlinear;
pub mod compose;
pub mod options;
pub mod tutorial;
pub mod ecology;
pub mod hierarchy;
pub mod round_trip;
pub mod polyglot;
pub mod study;
pub mod translate;
pub mod areal;
pub mod profile;
pub mod gaps;
pub mod listings;
pub mod family;

verus! {
}
