# fingerboard

An on-screen keyboard for phones that run a wayland compositor. Layouts are
described in YAML files: views made of rows of key ids, and for each key
what a short or long press does, how the key looks and how wide it is.

`src/` is the keyboard's logic, verified with Verus:

- `deserialized`, `key_meta`, `key_arrangement`, `layout_meta`: from a layout
  description to complete key information and the arrangement of each view
  in a grid of cells (rows centred, keys two cells wide by default).
- `key`, `action_map`, `interaction`, `gesture`, `input_handler`: keys, their
  actions per interaction, and how touch signals become interactions.
- `keyboard`, `decoder`, `interpreter`, `submission`: what an interaction
  does (submissions, button feedback, layout and view switches, latched
  modifiers) as a state machine that returns its effects.
- `submitter`, `vk_service`: how submissions reach the compositor, and the
  keys and modifiers the virtual keyboard holds down.
- `ui_manager`, `grid_cells`: which layout and view is shown, the landscape
  variants of layouts, and the cells each key covers.
- `str_map`, `text`, `locale`: an insertion-ordered string map and string
  helpers.

`app/` is the program around it: the GTK user interface, reading the YAML
files, D-Bus and wayland, and the floating-point geometry of touches.
