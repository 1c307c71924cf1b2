# greentic_qa

Question-and-answer forms, as a verified library in Verus.

- `src/` is the library. Every function carries a contract, and the `law_` proof
  functions state what holds across several of them.
- `tests/` runs the library on concrete values, with the outside crates linked.
- `app/` is the command line tool around the library: files, settings, the
  terminal, and the records that `serde` reads and writes.

## Modules

| Modules | What they hold |
| --- | --- |
| `text`, `entries`, `json`, `json_text`, `cbor`, `paths` | texts, ordered maps, JSON values, their texts and canonical CBOR, paths |
| `form`, `answers`, `validate` | forms, answer sets, checking answers against a form |
| `inclusion`, `assets`, `context`, `localize`, `responses`, `requests`, `modes`, `faults`, `host` | the component: forms that include others, form assets and locale files, its requests and modes, and what its host calls |
| `driver`, `wizard`, `cli`, `catalog` | runs of the wizard, what it prints, the command line tool's decisions and its message catalog |
| `typed`, `hints`, `builder`, `console`, `authoring` | answers that are typed in, and the dialogue and the checks by which a new form is made |
| `replay`, `described` | what holds of every dialogue |

Expressions of a form are evaluated outside the library: which questions are
shown, what computed answers are and which conditions hold come in as arguments.
Dialogues are functions of the lines typed in so far; the tool runs them again on
one more line and prints what they add.

What the library takes from outside crates stands behind small wrappers whose doc
comments say what is believed of the crate: `serde_json` in `json_text`,
`serde_cbor` in `cbor`, `regex` in `validate`, `greentic_types` in `modes` and `host`.
