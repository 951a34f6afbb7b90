# ami_workbench

The decisions of a terminal workbench, verified with Verus: a file sidebar with
Git decorations and file operations, panes with terminals and shell tabs, menus,
selections, trust in the workspace, and the lifecycle of the processes in the
panes.

The library in `src/` is made of plain values. It keeps the state, takes events
and answers, and says what is to be done next; its contracts say exactly which
state and which requests follow. Nothing in it reads a file, starts a process or
paints a cell. The crate in `app/` does those things around it.

- Paths, bytes and text: `path`, `bytes`, `text`, `collections`.
- The tree: `tree`, `subtree`, `listing`, `decorate`, `git`.
- The sidebar: `state` says what each request and reply makes of it, `sidebar`
  does it, `jobs` is what its worker is handed and answers.
- The worker's work, step by step: `load` reads a directory, `git_status` runs
  `git status`, `mutation` changes files.
- What is shown: `style`, `sidebar_view`, `context_menu`, `title`, `trust`,
  `geometry`, `workbench`, `runtime_view`.
- Processes: `sessions`.
- The program: `runtime_state` and `runtime_replies` say what each event and
  answer makes of it, `runtime` does it, `input` tells keys apart.
- Laws that hold across functions: `path_laws`, `decoration_laws`,
  `reconcile_laws`, `row_laws`, `sidebar_laws`, `runtime_laws`, and the `law_`
  functions of the other modules.

Times are nanoseconds since some start. A path keeps the bytes that it is written
with, and two spellings of one path are one path. The program in `app/` runs on
Unix, where paths are bytes.
