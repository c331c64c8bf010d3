# listing_importer

Imports a real-estate listing page into a Nextcloud folder: the page is read,
its images are fetched, and the images and a note made from a template are
uploaded.

- `src/` is the library, verified with Verus. `job` is the import as a machine
  that is told what came of its last action and answers with the next one;
  `page`, `template`, `paths`, `nextcloud`, `config` and `form` are what it is
  made of; `guarantees` states what holds of every import.
- `app/` is the web server. It performs the actions that the library asks for.
- `tests/` runs the library on concrete values.

Paths are written as the machine writes them: `PathStyle` tells the library
whether these are the rules of Unix or those of Windows.

The settings are taken from the environment: `NC_URL`, `NC_USERNAME` and
`NC_PASSWORD` are needed; `OUTPUT_DIR` (`output`), `DOWNLOAD_DELAY_SECS` (`2`)
and `SKIP_IMAGES` (unset) have defaults.
