//! Editing and viewing logic of a PDF editor: the undo history of queued
//! edits, the planning of raster and text work around the viewport, text
//! selection across pages, form-field values and their validation, search
//! over page text and the icon asset table.

pub mod assets;
pub mod calendar;
pub mod commands;
pub mod document_io;
pub mod edits;
pub mod form_choice;
pub mod form_validation;
pub mod history;
pub mod model;
pub mod navigation;
pub mod raster;
pub mod residency;
pub mod schedule;
pub mod search;
pub mod status;
pub mod selection;
pub mod session;
pub mod text;
