# pdf_viewer

The decisions of a PDF viewer for a small device, verified with Verus: what the browser lists,
which files are opened, which pages are drawn, and what is on screen after every event.

- `src/text.rs`, `src/size.rs`, `src/paths.rs`: characters and numerals, sizes in words, paths.
- `src/storage.rs`, `src/reading.rs`: locations, reports of the file system, limits on reading.
- `src/listing.rs`: the lines of the browser and their order.
- `src/document.rs`: what is asked of the PDF parser, and what is believed of its answers.
- `src/images.rs`, `src/inspection.rs`: what a page will cost to draw, before it is drawn.
- `src/session.rs`: the state of the viewer and what each event does to it.
- `app/`: windows, files and bitmaps on the device.
- `tests/`: the library on concrete files and directories.

Public proof functions state what holds of the library as a whole: that a directory is shown in
one way only, that every path up leads to the root, that a page that is too costly never closes
the document.
