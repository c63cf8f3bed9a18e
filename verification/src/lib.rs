//! Verified editing core for HWP-style documents.
use vstd::prelude::*;

pub mod apply;
pub mod cell_path;
pub mod document_core;
pub mod edit_op;
pub mod error;
pub mod hwpx_table;
pub mod ir_build;
pub mod ir_compact;
pub mod ir_filter;
pub mod ir_outline;
pub mod ir_slice;
pub mod ir_view;
pub mod json;
pub mod lookup;
pub mod model;
pub mod para_list;
pub mod patch;
pub mod session;
pub mod storage;
pub mod store;
pub mod text;
pub mod text_ops;
pub mod workbench;
pub mod xml;

verus! {
} // verus!
