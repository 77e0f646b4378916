# painter

The painter of a window switcher: a layered window that shows one icon per
open app in rows of ten, highlights the selected and the hovered app, and tells
which app a click landed on.

- `src/` is the verified library (Verus):
  - `layout` — the grid, the window's size and place on the monitor, and the
    hit test that maps a click to an app;
  - `icons` — the icon bitmap drawn at six times its size: colors, highlighted
    cells and icon squares;
  - `shape` — the arcs of a rounded-rectangle outline;
  - `window` — whether the window is shown.
- `app/` draws with GDI and GDI+ on Windows from what the library computes;
  the DPI factor, a floating-point number, is applied there.
- `tests/` runs the library on concrete layouts.
