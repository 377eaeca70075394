# A cloud for controlled sharing of pictures

Clients have their pictures encrypted by a small cluster of servers, and share
them with each other. The owner of a picture says how often a peer may view it,
and can change that number later, also while the peer is away.

The servers are equals. For each request they elect the one that serves it: the
one with the highest priority, and among equal priorities the one whose address
comes last. From time to time a server is told to simulate a failure.

## Layout

`src/` is the verified library.

| module | what it holds |
| --- | --- |
| `text` | decimal numbers, lines, separators, order, file names |
| `address`, `priority`, `message`, `picture` | the data that clients and servers exchange |
| `ids` | the names of requests and shared pictures |
| `ledger` | which pictures are shared with whom, and with how many views |
| `utils` | addresses of the servers, small matters of files |
| `waiting` | waiting for a reply for a limited number of rounds |
| `random` | chance |
| `server` | elections, messages, simulated failures |
| `client` | sharing, viewing, changing the number of views, encryption |
| `laws` | what holds of the library as a whole |

Whatever needs a socket, a file, a clock or a window is in `app/`. It performs
the actions that the library decides on and hands back what came of them.
`tests/` holds the tests of the library.
