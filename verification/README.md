# finanalize

The verified core of the Finanalize backend, which writes financial reports
from web pages, PDF filings and tables of data with the help of a language
model.

- `src/` is the library, written in Verus; every function there is verified
  against its contract.
  - `extractors/`: reading documents. HTML pages are parsed with `scraper`
    into a flat document tree (`dom`), from which figures (`figure`), the text
    of the page's sections (`html`) and Markdown (`md`) are taken; PDF files,
    once rendered to HTML with `pdf-extract` by the server, are read the same
    way (`pdf`); plain text is cut
    into chunks of at most 512 bytes (`text`); tables are previewed and
    described for the classifier (`csv`, `excel`).
  - `latex/`: the LaTeX commands that typeset a report, the report and
    bibliography templates filled in with `handlebars`, and the names and
    clean-up of its build folder (`renderer`).
  - `tasks`: prompts sent to a model, with the JSON of the answer cut out,
    repaired and retried.
  - `llm`, `credits`, `credit`: what generations cost and the wallets that
    pay for them, with the arithmetic done by `rust_decimal`.
  - `jwt`, `auth`, `api`, `error`: session tokens signed and read with
    `jsonwebtoken`, passwords hashed and checked with `argon2`, cookies, the
    answer envelope of the web API and the errors it reports.
  - `prompting`, `search`, `sec`, `graphing`, `models`, `report`: prompt
    templates, search queries, SEC filing links and the plain data of the
    service.
- `tests/` runs the library on concrete values.
- `app/` is the server around it: `actix-web` endpoints, JSON, the model and
  search clients, files and processes.
