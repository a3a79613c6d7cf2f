# galaxy_ops

The verified core of the `gops sys` tooling that creates, sets up, localizes,
packages and operates delivered systems, and of the operations projects that
import them.

- `src/` is the library, written in Verus and proved:
  - `path`: the file layout of a system and of its value directories;
  - `conf`, `define`: system kinds, configurations, definitions and models;
  - `addr`: where systems and dependencies come from;
  - `dict`: the layered value dictionaries (defaults, customer values,
    module settings, global values) and their precedence;
  - `value_file`, `text`: value files that hold only comments, and the inert
    reference template;
  - `env_file`: the dotenv export of localized values;
  - `setting`: the per-module localization settings;
  - `sys_vars`: the values of variable groups, the resolved variables and
    the values set for a system's variables;
  - `ops_prj`: operations projects and the systems imported into them;
  - `operator`: what saving and initializing a system writes;
  - `gflow`: the gflow version check;
  - `cmd`: the arguments and decisions of the `gops sys` commands.
- `tests/` runs the library against the real `orion-variate` dictionaries.
- `app/` is the command-line program: it parses arguments, reads and writes
  files, asks questions and runs gx and docker compose around the
  library's decisions.
