# screenshot-dai

A lightweight screenshot tool: capture a region of the desktop, annotate it in
place, then pin, save or copy it. The library holds the documents, the drawing,
the editor and the application's decisions, verified with Verus; the program
around it drives windows, monitors, the tray and the clipboard.

## Library (`src/`)

- `picture`: RGBA documents and their mathematical model.
- `raster`: strokes: thick lines, outlines, arrows, freehand lines.
- `imageops`: cropping, blurring and pixelating regions.
- `geometry`: overlay positions, held by the rank of their coordinates.
- `ui::region_overlay`: the session of one capture: selecting, editing, undo.
- `ui::toolbar`, `ui::theme`, `ui::pin_window`: what the user interface shows.
- `app`: the application's state: captures, pins, messages, the settings window.
- `capture`, `desktop`: which monitor to capture, the virtual desktop, PNG and
  display conversion, file names.
- `config`, `hotkey`: settings and the capture hotkey.
- `platform`: the window under the cursor.
- `tray`: the tray icon.
- `text`, `failure`: decimal numbers and trimming; failures with a message.
- `clipboard`, `llm`, `ocr`: interfaces whose implementations are still to come.

Every public function states what it returns or changes. What holds of several
functions together is stated by proof functions whose names start with `law_`.

Functions that call another crate are marked `external_body`; their comments say
what is taken from that crate without proof.

## Program (`app/`)

Ordinary Rust: egui windows and painting, floating-point measuring between
logical points and physical pixels, text rendering, file and clipboard access.

Geist fonts are read from `assets/fonts` beside the executable or in the current
directory; without them egui's own fonts are used.
