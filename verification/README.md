# cli_assistant

The verified core of a command-line assistant that sends a failed (or
questioned) shell command to an OpenAI model and offers to run the model's
suggestion.

- `src/` is the library, verified with Verus:
  - `text`: strings as character sequences (`trim`, `lines`, `split`,
    `join`, prefixes, containment) with their meaning as spec functions;
  - `number`: decimal notation of integers, written and read;
  - `config`: API key, model and timeout, with their defaults;
  - `shell`: the command context, the shell information, and reading the
    last command from a shell history;
  - `prompt`: choosing the mode (fix, explain, improve) and writing the prompt;
  - `parser`: reading the `EXPLANATION:` and `COMMAND:` sections of a reply,
    with the round trip of a reply in the requested format proved;
  - `executor`: the confirmation dialogue and what runs after it;
  - `display`: the sections shown on the terminal;
  - `openai`: the request message and the reading of the API's reply.
- `app/` is the program: argument parsing, environment and file access, the
  HTTP request, terminal colors and running commands.
- `tests/` runs the library on concrete inputs.
