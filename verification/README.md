# piclayout

PicLayout joins photos into one collage: every image is scaled and centred in
a square tile, the tiles form a near-square grid, an outer border is added,
and the result is written as a high-resolution JPEG with its print density
and colour profile. A watermark and a text block can be laid over it.

- `src/` is the verified library (Verus): grid and border arithmetic, canvas
  geometry, the job's validation rules and their messages, JPEG/PNG metadata
  segments (JFIF density, ICC profiles, EXIF orientation), colour-profile
  decisions, font list ordering, gain-map geometry and the progress records.
  Calls into `image`, `lcms2`, `fast_image_resize`, `flate2`, `kamadak-exif`
  and `cosmic-text` go through small trusted wrappers whose contracts are
  documented next to them.
- `app/` is the command around it: JSON configuration on stdin, progress as
  NDJSON on stdout, file I/O, worker threads, and the floating-point parts
  (percentages, scaling factors, tone mapping, alpha blending, text layout).
- `tests/` exercises the library with concrete values.
