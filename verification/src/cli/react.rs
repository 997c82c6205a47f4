//! The Vite + React + Tailwind scaffold, which exists because of what agents
//! actually do when left to choose.
//!
//! Given a shell with node in it, a model will still hand-write a single
//! `index.html` with a `<script>` block and inline styles, then spend the rest
//! of the session maintaining it by string replacement. Not because it is
//! better — because it is the path with no setup step, and the setup step is
//! where a decision gets made.
//!
//! So the setup step is removed. `init --react` writes a project that builds
//! unmodified, with `base` already `/p/<slug>/` — the one thing that is easy
//! to get wrong and produces a blank page rather than an error.
use crate::text::{at, holds, pairs};
use vstd::prelude::*;

verus! {

/// How the sources are checked.
pub const TSCONFIG: &'static str = "{\n  \"compilerOptions\": {\n    \"target\": \"ES2022\",\n    \"lib\": [\"ES2022\", \"DOM\", \"DOM.Iterable\"],\n    \"module\": \"ESNext\",\n    \"moduleResolution\": \"bundler\",\n    \"jsx\": \"react-jsx\",\n    \"strict\": true,\n    \"skipLibCheck\": true,\n    \"noEmit\": true,\n    \"types\": [\"vite/client\"]\n  },\n  \"include\": [\"src\"]\n}\n";

/// What mounts the app.
pub const MAIN_TSX: &'static str = "import { StrictMode } from 'react'\nimport { createRoot } from 'react-dom/client'\nimport App from './App'\nimport './index.css'\n\ncreateRoot(document.getElementById('root')!).render(\n  <StrictMode>\n    <App />\n  </StrictMode>,\n)\n";

/// Tailwind 4 is one import; there is no config file to write and no content
/// globs to keep correct.
pub const INDEX_CSS: &'static str = "@import \"tailwindcss\";\n";

/// What is not kept under version control.
pub const GITIGNORE: &'static str = "node_modules/\ndist/\n";

/// What a project depends on and how it is built.
///
/// Caret ranges, which float within a major and not past it.
pub open spec fn package_json_of(name: Seq<char>) -> Seq<char> {
    "{\n  \"name\": \""@
        + name
        + "\",\n  \"private\": true,\n  \"type\": \"module\",\n  \"scripts\": {\n    \"dev\": \"vite\",\n    \"build\": \"vite build\",\n    \"preview\": \"vite preview\"\n  },\n  \"dependencies\": {\n    \"react\": \"^19.0.0\",\n    \"react-dom\": \"^19.0.0\"\n  },\n  \"devDependencies\": {\n    \"@tailwindcss/vite\": \"^4.0.0\",\n    \"@types/react\": \"^19.0.0\",\n    \"@types/react-dom\": \"^19.0.0\",\n    \"@vitejs/plugin-react\": \"^6.0.0\",\n    \"tailwindcss\": \"^4.0.0\",\n    \"typescript\": \"^7.0.0\",\n    \"vite\": \"^8.0.0\"\n  }\n}\n"@
}

/// What a project depends on and how it is built.
pub fn package_json(name: &str) -> (r: String)
    ensures
        r@ == package_json_of(name@),
{
    "{\n  \"name\": \"".to_owned()
        .concat(name)
        .concat("\",\n  \"private\": true,\n  \"type\": \"module\",\n  \"scripts\": {\n    \"dev\": \"vite\",\n    \"build\": \"vite build\",\n    \"preview\": \"vite preview\"\n  },\n  \"dependencies\": {\n    \"react\": \"^19.0.0\",\n    \"react-dom\": \"^19.0.0\"\n  },\n  \"devDependencies\": {\n    \"@tailwindcss/vite\": \"^4.0.0\",\n    \"@types/react\": \"^19.0.0\",\n    \"@types/react-dom\": \"^19.0.0\",\n    \"@vitejs/plugin-react\": \"^6.0.0\",\n    \"tailwindcss\": \"^4.0.0\",\n    \"typescript\": \"^7.0.0\",\n    \"vite\": \"^8.0.0\"\n  }\n}\n")
}

/// How the project is built. An app is served from `/p/<slug>/`, so
/// a default build asks for `/assets/…` at the domain root, gets the index page
/// back, and renders nothing. It looks like a success: 200s all round, blank
/// screen.
pub open spec fn vite_config_of(name: Seq<char>) -> Seq<char> {
    "import { defineConfig } from 'vite'\nimport react from '@vitejs/plugin-react'\nimport tailwindcss from '@tailwindcss/vite'\n\nexport default defineConfig({\n  // Served from a subpath, never the domain root. Without this the build\n  // loads and renders blank, because every asset 404s.\n  base: '/p/"@
        + name
        + "/',\n  plugins: [react(), tailwindcss()],\n})\n"@
}

/// How the project is built. An app is served from `/p/<slug>/`, so
/// a default build asks for `/assets/…` at the domain root, gets the index page
/// back, and renders nothing. It looks like a success: 200s all round, blank
/// screen.
pub fn vite_config(name: &str) -> (r: String)
    ensures
        r@ == vite_config_of(name@),
{
    "import { defineConfig } from 'vite'\nimport react from '@vitejs/plugin-react'\nimport tailwindcss from '@tailwindcss/vite'\n\nexport default defineConfig({\n  // Served from a subpath, never the domain root. Without this the build\n  // loads and renders blank, because every asset 404s.\n  base: '/p/".to_owned()
        .concat(name)
        .concat("/',\n  plugins: [react(), tailwindcss()],\n})\n")
}

/// The page that the app is mounted on.
pub open spec fn index_html_of(name: Seq<char>) -> Seq<char> {
    "<!doctype html>\n<html lang=\"en\">\n  <head>\n    <meta charset=\"UTF-8\" />\n    <meta name=\"viewport\" content=\"width=device-width, initial-scale=1.0\" />\n    <title>"@
        + name
        + "</title>\n  </head>\n  <body>\n    <div id=\"root\"></div>\n    <script type=\"module\" src=\"/src/main.tsx\"></script>\n  </body>\n</html>\n"@
}

/// The page that the app is mounted on.
pub fn index_html(name: &str) -> (r: String)
    ensures
        r@ == index_html_of(name@),
{
    "<!doctype html>\n<html lang=\"en\">\n  <head>\n    <meta charset=\"UTF-8\" />\n    <meta name=\"viewport\" content=\"width=device-width, initial-scale=1.0\" />\n    <title>".to_owned()
        .concat(name)
        .concat("</title>\n  </head>\n  <body>\n    <div id=\"root\"></div>\n    <script type=\"module\" src=\"/src/main.tsx\"></script>\n  </body>\n</html>\n")
}

/// The app. It fetches from the handler, because an app that needs a server
/// is the reason to be here at all, and a relative URL is the correct one under
/// `/p/<slug>/`.
pub open spec fn app_tsx_of(name: Seq<char>) -> Seq<char> {
    "import { useEffect, useState } from 'react'\n\nexport default function App() {\n  const [greeting, setGreeting] = useState<string | null>(null)\n  const [error, setError] = useState<string | null>(null)\n\n  useEffect(() => {\n    // Relative on purpose: the app is mounted at /p/"@
        + name
        + "/, so 'api/hello'\n    // resolves against it. A leading slash would escape to the domain root.\n    fetch('api/hello')\n      .then((res) => (res.ok ? res.text() : Promise.reject(new Error(`HTTP ${res.status}`))))\n      .then(setGreeting)\n      .catch((e) => setError(String(e)))\n  }, [])\n\n  return (\n    <main className=\"mx-auto max-w-2xl px-6 py-16\">\n      <h1 className=\"text-3xl font-semibold tracking-tight\">"@
        + name
        + "</h1>\n      <p className=\"mt-2 text-sm text-neutral-500\">\n        Edit <code className=\"rounded bg-neutral-500/10 px-1 py-0.5\">src/App.tsx</code>, then{' '}\n        <code className=\"rounded bg-neutral-500/10 px-1 py-0.5\">npm run build &amp;&amp; toolsite deploy</code>.\n      </p>\n\n      <div className=\"mt-8 rounded-lg border border-neutral-500/20 p-4\">\n        <div className=\"text-xs uppercase tracking-wide text-neutral-500\">from the handler</div>\n        <div className=\"mt-1 font-mono text-sm\">\n          {error ? <span className=\"text-red-500\">{error}</span> : (greeting ?? 'loading…')}\n        </div>\n      </div>\n    </main>\n  )\n}\n"@
}

/// The app. It fetches from the handler, because an app that needs a server
/// is the reason to be here at all, and a relative URL is the correct one under
/// `/p/<slug>/`.
pub fn app_tsx(name: &str) -> (r: String)
    ensures
        r@ == app_tsx_of(name@),
{
    "import { useEffect, useState } from 'react'\n\nexport default function App() {\n  const [greeting, setGreeting] = useState<string | null>(null)\n  const [error, setError] = useState<string | null>(null)\n\n  useEffect(() => {\n    // Relative on purpose: the app is mounted at /p/".to_owned()
        .concat(name)
        .concat("/, so 'api/hello'\n    // resolves against it. A leading slash would escape to the domain root.\n    fetch('api/hello')\n      .then((res) => (res.ok ? res.text() : Promise.reject(new Error(`HTTP ${res.status}`))))\n      .then(setGreeting)\n      .catch((e) => setError(String(e)))\n  }, [])\n\n  return (\n    <main className=\"mx-auto max-w-2xl px-6 py-16\">\n      <h1 className=\"text-3xl font-semibold tracking-tight\">")
        .concat(name)
        .concat("</h1>\n      <p className=\"mt-2 text-sm text-neutral-500\">\n        Edit <code className=\"rounded bg-neutral-500/10 px-1 py-0.5\">src/App.tsx</code>, then{' '}\n        <code className=\"rounded bg-neutral-500/10 px-1 py-0.5\">npm run build &amp;&amp; toolsite deploy</code>.\n      </p>\n\n      <div className=\"mt-8 rounded-lg border border-neutral-500/20 p-4\">\n        <div className=\"text-xs uppercase tracking-wide text-neutral-500\">from the handler</div>\n        <div className=\"mt-1 font-mono text-sm\">\n          {error ? <span className=\"text-red-500\">{error}</span> : (greeting ?? 'loading…')}\n        </div>\n      </div>\n    </main>\n  )\n}\n")
}

/// The files of a project, below its directory.
pub open spec fn react_files(name: Seq<char>) -> Seq<(Seq<char>, Seq<char>)> {
    seq![
        ("package.json"@, package_json_of(name)),
        ("vite.config.ts"@, vite_config_of(name)),
        ("tsconfig.json"@, TSCONFIG@),
        ("index.html"@, index_html_of(name)),
        ("src/main.tsx"@, MAIN_TSX@),
        ("src/App.tsx"@, app_tsx_of(name)),
        ("src/index.css"@, INDEX_CSS@),
        (".gitignore"@, GITIGNORE@),
    ]
}

/// The files of a project, below its directory.
pub fn write(name: &str) -> (r: Vec<(String, String)>)
    ensures
        pairs(r@) == react_files(name@),
{
    let mut files: Vec<(String, String)> = Vec::new();
    files.push(("package.json".to_owned(), package_json(name)));
    files.push(("vite.config.ts".to_owned(), vite_config(name)));
    files.push(("tsconfig.json".to_owned(), TSCONFIG.to_owned()));
    files.push(("index.html".to_owned(), index_html(name)));
    files.push(("src/main.tsx".to_owned(), MAIN_TSX.to_owned()));
    files.push(("src/App.tsx".to_owned(), app_tsx(name)));
    files.push(("src/index.css".to_owned(), INDEX_CSS.to_owned()));
    files.push((".gitignore".to_owned(), GITIGNORE.to_owned()));
    assert(pairs(files@) =~= react_files(name@));
    files
}

/// The base path is set before anyone has to learn why: whatever an app is
/// called, its build is told that it is served from below `/p/`.
pub proof fn base_path_is_set(name: Seq<char>)
    ensures
        holds(vite_config_of(name), "base: '/p/"@ + name + "/'"@),
{
    let config = vite_config_of(name);
    let wanted = "base: '/p/"@ + name + "/'"@;
    reveal_strlit("import { defineConfig } from 'vite'\nimport react from '@vitejs/plugin-react'\nimport tailwindcss from '@tailwindcss/vite'\n\nexport default defineConfig({\n  // Served from a subpath, never the domain root. Without this the build\n  // loads and renders blank, because every asset 404s.\n  base: '/p/");
    reveal_strlit("base: '/p/");
    reveal_strlit("/'");
    reveal_strlit("/',\n  plugins: [react(), tailwindcss()],\n})\n");
    let head = "import { defineConfig } from 'vite'\nimport react from '@vitejs/plugin-react'\nimport tailwindcss from '@tailwindcss/vite'\n\nexport default defineConfig({\n  // Served from a subpath, never the domain root. Without this the build\n  // loads and renders blank, because every asset 404s.\n  base: '/p/"@;
    assert(head.skip(284) =~= "base: '/p/"@);
    assert forall|k: int| 0 <= k < wanted.len() implies wanted[k] == config[284 + k] by {
        if k < 10 {
            assert(head.skip(284)[k] == head[284 + k]);
        }
    }
    assert(config.subrange(284, 284 + wanted.len() as int) =~= wanted);
    assert(at(config, wanted, 284));
}

} // verus!
