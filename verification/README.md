# genpack

A library for a meta package manager: it reads package specifications
(`manager@name@version`, `manager@name`, `name`, or a URL whose last path segment
names the package and whose `version=` fragment entry gives the version), renders
packages for package-manager command lines, and knows Homebrew's commands.

Layout:

- `src/` — the library, written and proved with Verus:
  `text` (splitting, comparing and lower-casing text), `location` (the parts of a
  parsed URL, from the `url` crate), `common` (commands, package managers, formats),
  `package` (packages, their parsing and rendering), `managers/brew` (Homebrew),
  `console` (the interactive header and argument filtering), `outcome` (the outcome
  of a command and its description), `laws` (properties of
  the library as a whole).
- `app/` — processes, downloads, the terminal, and the impls of outside traits
  (`serde`, `clap`, `strum`, `tabled`) on copies of the library's types.
- `tests/` — tests of the library on concrete values.
