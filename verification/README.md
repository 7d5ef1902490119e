# adi_fe_iced

A graphical front end for a disassembler, built on iced, with its logic as a
library verified by Verus.

- `src/` is the verified library: the data the back end sends (`ui`, `backend`),
  how an instruction's printed text is collected (`print_output`), how spans become
  code-view items (`render`), the rows and lines of the listing and what a line does
  on mouse and keyboard input (`code_view`, `code_line`, `line_style`), the index
  decisions of the lazily filled list (`sparse_list`), the segment selector
  (`code_pane`), the main window's decisions (`frontend`) and text formatting
  (`text`).
- `app/` is the program around it: the iced window and widgets (pixel geometry in
  floating point), the back-end thread and channels, and the disassembler calls.
- `tests/` runs the library on concrete values.
