# icon_export

Exports the icon textures of a game installation as images. Each texture is named by the SHA-256
digest of its contents, so textures of the same content are converted and stored once. The images
go into one archive or into files of their own, together with a file that says which image each
icon's texture became.

- `src/` is the library. It decides and computes: options, names, texture decoding, the processing
  of an icon, the storing of images and the totals. Every function states what it returns, and
  Verus proves it. `src/laws/` holds what is proved of the library as a whole.
- `app/` is the program: arguments, threads, game data, file system, archive and progress bar.
- `tests/` runs the library on concrete values.

Two parts of the work alternate between decisions and input or output: the processing of an icon
(`job`) and the storing of its images (`writer`). There the library hands out a request, the
program performs it and hands back the answer.

Textures are converted to WebP. AVIF can be asked for, but there is no encoder for it: every texture
is then reported as faulty.
