# wgzimmer

Searches wgzimmer.ch for shared flats, applies for new offers and keeps a
CSV record of the offers applied for, so that a later run does not apply
for them again.

- `src/` is the library, verified with Verus: text handling, reading
  listings, the scripts sent to the browser, the decisions taken for each
  listing (`scrape::Scraper`), and the CSV record (`checkpoint`).
- `app/` drives a browser through a WebDriver server (thirtyfour, tokio),
  reads the settings from the environment and reads and writes the files.
- `tests/` runs the library on concrete values.

Settings (environment or `.env`): `PORT`, `URL`, `MSG_TXT_PATH`, `NAME`,
`EMAIL`, `DATA_PATH`.
