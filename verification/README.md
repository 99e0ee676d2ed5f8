# maw_inbox

The inbox of `maw`: messages that lie as files in a directory, listed, shown, marked read,
answered with notes, and drained of what is routine.

The library in `src/` decides and words; it touches no file, reads no clock and sends
nothing. It is written in Verus: each function states what it returns in `requires` and
`ensures`, over sequences of characters and plain values, and is proved to do so.

- `text`, `decimal`: texts as sequences of characters, and whole numbers in digits.
- `args`: the guards on arguments, and the values that flags take.
- `model`, `config`: messages, and where the inbox lies and whose it is.
- `command`: which part of the command the arguments ask for, how it ends, how a message is
  handed on.
- `list`, `table`, `show`, `mark_read`, `write`: the parts that read and write messages.
- `drain_args`, `drain`, `archive`, `drain_run`, `drain_report`: a drain, from its arguments
  over what it takes and where that goes to what it prints.

How a moment is worded, how a text is cut to a width or which message a name picks is told by
the rest of the program: such functions come as arguments, and the contracts say what they
are handed and where their answers go. Where files have to be read and moved between two
decisions, the library is a state machine that says what to do next.

A drain takes only messages whose body's first line is a bracketed report that asks nothing
and holds a routine pattern, that are old enough, and no more than a cap. It is a dry run,
which moves nothing and reports what would be taken. It archives once its caller confirms that
report, and never where `--dry-run` asks for the report alone. The modules state these and other properties of the whole as
public proof functions.

`tests/` runs the library, and `app/` puts it to work on a file system.
