# scrape_brilliant

An archiver for the Brilliant.org community pages, with its logic verified by
Verus.

- `src/` — the verified library:
  - `text`: trimming, prefix/suffix/substring tests, replacement and joining
    of strings, specified over `Seq<char>`;
  - `urls`: making scraped links absolute;
  - `page`: parsed HTML pages and XPath queries (through `scraper-main`);
  - `scraping`: the listing and problem records, their models, the field
    clean-ups and the page scrapers;
  - `requesting`: the listing endpoint's response;
  - `crawl`: how listing pages are merged into what was found, and what to
    fetch next;
  - `archive`: where downloads are stored and how stored pages are prepared.
- `app/` — the program: command line, HTTP requests, files, and the web
  viewer (`cargo run -- scrape`, `cargo run -- web`). With `scrape`, the
  argument `no-cache-check` uses the cached listing as it is, and
  `skip-downloaded-html-files` leaves alone the problems whose page is already
  stored.
- `tests/` — tests of the library.
