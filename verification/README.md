# Alligator

Corporate communications aggregator: messages from several chat services in one
terminal interface, and the tokens of those services in an encrypted vault.

## Layout

- `src/` is the library, verified with Verus. It decides everything: how
  messages become rooms, what the screen shows, how keys are wrapped and tokens
  encrypted, when a vault opens, and when a token is refreshed.
- `app/` is the program around it: the terminal, the threads, the vault file and
  its JSON, and the environment.
- `tests/` runs the library.

## What is proved

Every verified function of `src/` states what it returns or changes. Where that
rests on a clock or on the random generator, it states what becomes of the
reading or of the bytes, and that they came from there. The modules whose
names end in `_laws` state what holds across functions, for instance that what
was last committed to a vault comes back, through any operations, when its
password or a passkey opens it, that as many failed
attempts as are allowed bring a cooldown during which every attempt is refused,
and that each room holds exactly its own messages in the order of arrival.

Key derivation (`argon2`), encryption (`chacha20poly1305`), base64 (`base64`),
randomness (`rand`), wiped memory (`zeroize`) and the clocks are called through
the functions marked `external_body`; their contracts are believed, and each
says what it claims, or that it claims nothing.

## Use

The program shows a splash screen, then a simulated Slack stream with a message
every two to five seconds. The arrows change the selected room, `q` quits, and
any key ends the splash screen at once.
