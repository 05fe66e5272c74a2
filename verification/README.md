# saola_capture

The logic of a screen capture tool for the niri compositor, verified with Verus.

The library in `src/` holds everything that decides or computes:

- `units`, `capture`, `clock`, `single`: subpixel coordinates, outputs, time, rounding
  to single precision
- `pixmap`, `raster`, `compose`, `redact`, `blur`: frames, painting and redacting them
- `shapes`, `editor`, `editor_laws`, `editor_state`, `canvas`, `fit`: the annotation editor
- `overlay`: selecting a region of the screen
- `recorder`: the phases of a recording, and the pump from cast to encoder
- `history`, `library`, `imaging`, `paths`, `export`: saved captures
- `toast`, `flash`, `countdown`: what the daemon shows
- `daemon`, `app`, `cli`, `config`, `picker`, `text`: the two processes and the command line

Coordinates are whole numbers of subpixels, 256 to a pixel, so that every
geometric rule is exact. Each stateful part has a ghost view and a function from
one view to the next; the methods carry those functions out, and the functions
named `law_...` state what holds of them.

`app/` is the program around the library: the command line, the session bus, the
windows and surfaces, files. It needs `iced_layershell`, which in turn needs the
`xkbcommon` system library.

`tests/` runs the library on concrete values.
