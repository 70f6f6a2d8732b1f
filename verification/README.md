# piotr

A Signal chat bot that answers with the help of language models.

The bot's logic is a library in `src/`, written in Rust and verified with Verus:
the functions state in their contracts what they return, and the laws that tie
functions together are proved as proof functions. Of a random number or nonce
nothing is stated; a function that draws one says what holds whichever comes, and
one beside it takes the number as an argument. The program in `app/` talks to the
outside: the Signal process, the models, the database, files and clocks.

| Module | What it holds |
| --- | --- |
| `bot` | what a message amounts to, and the sessions |
| `bot::routing` | sender, conversation, address of the answer, whether the bot is meant |
| `bot::prompt` | the words with which the bot turns to the models |
| `bot::turn` | the course of one prompt as a state machine |
| `bot::reply` | how an answer is cut into messages |
| `bot::window` | how long a history may become |
| `state_manager`, `lru` | histories, sequencers, chosen models, sent answers |
| `ai::vertex` | requests to the models and what their replies amount to |
| `ai::rate_limit` | pauses between calls |
| `ai::memory` | encrypted storage of profiles and of answers that people liked |
| `signal` | the messages of Signal |
| `signal::rpc` | requests to the Signal process, and when it is restarted |
| `crypto` | hashing, encryption and encodings, from outside crates |
| `single` | numbers in single precision |
| `json`, `text`, `config`, `db`, `utils` | plain data and text |

The functions in `crypto`, and the letter case functions in `text`, call code
that is not verified here; their contracts say what is relied on.

`piotr test-image` tries the model that draws.
