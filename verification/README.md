# viontin_gems

Verified core of three Viontin gems, written in Verus:

- **Inertia** (`gem_inertia`, `inertia`): an InertiaJS server adapter. Pages
  are JSON objects `{ component, props, url, version }`; an `X-Inertia`
  request gets the page as JSON, a full page load gets the root view with the
  page JSON in place of `{{data-page}}`, a redirect seen by an Inertia request
  becomes `409 Conflict` with `X-Inertia-Location`, and
  `X-Inertia-Partial-Data` limits the props sent. Shared props, the asset
  version and the root view live in an `InertiaConfig` value.
- **Tailwind** (`tailwind`): finds the class names of `class="..."` and
  `class='...'` attributes and has `tailwind-rs-core` turn them into CSS.
- **Webview** (`webview`): the settings of the desktop window and the URL it
  loads.

Layout:

- `src/` — the library. Its own functions carry contracts that Verus proves;
  the calls into serde_json, tailwind-rs-core and std's UTF-8 check go through
  small wrappers marked `#[verifier::external_body]`, whose contracts Verus
  takes on trust (each says in its doc comment what it claims of the call).
  `json` holds the JSON values and member maps, `text` the character-level
  string work, `http` the request and response values the middleware sees.
- `app/` — the I/O around it: process-wide settings behind a mutex, reading
  files, globbing the project, writing the stylesheet and the tao/wry window.
- `tests/` — tests run against the compiled library.
