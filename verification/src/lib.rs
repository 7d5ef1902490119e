//! Verified core of a graphical front end for a disassembler: the data that the
//! code listing shows, the text that each listed line is made of, the bookkeeping
//! of the lazily filled list, and the decisions that the front end takes on user
//! messages and back-end events.

pub mod ea;
pub mod style;
pub mod text;
pub mod ui;
pub mod print_output;
pub mod render;
pub mod line_style;
pub mod sparse_list;
pub mod backend;
pub mod code_view;
pub mod code_line;
pub mod frontend;
pub mod code_pane;
