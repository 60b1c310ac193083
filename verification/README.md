# arti-web-poc

An auth-gated web service that is reached over a Tor onion address, and a forwarder that makes a
remote onion service reachable on a local port. The decisions of the service are a library whose
behaviour is stated in contracts and proved with [Verus](https://github.com/verus-lang/verus).

| Directory | What it holds |
|---|---|
| `src/` | the verified library |
| `tests/` | tests of the library on concrete values |
| `app/` | the program around it: command line, Tor, HTTP and files |

## The library

| Module | What it does |
|---|---|
| `server` | decides what each request is answered, and processes the login form |
| `state` | users, sessions and the ping counter |
| `credentials` | Argon2id password hashes and random session tokens |
| `cookie` | writes and reads the session cookie |
| `form`, `form_laws` | read `application/x-www-form-urlencoded` bodies |
| `escape`, `pages` | HTML and JSON escaping, and the bodies that are sent |
| `response` | responses as plain values |
| `args` | the arguments of the two commands and what they print |
| `laws` | what is proved of the service as a whole |

Some of what `laws`, `form_laws`, `cookie`, `credentials` and `escape` prove:

- Without a valid session the restricted page redirects to the login, the API answers 401, and the
  only page with the status 200 is the login form.
- An accepted login hands out a cookie that is read back as the token of a session of that user.
- After a logout the token is worth nothing, and other sessions stay.
- In any series of requests and login forms, whoever comes to be signed in sent a form with the
  right credentials; only a user who exists can.
- Each ping is answered with its number, whatever comes between the pings.
- Refused logins are all answered alike, whether the name or the password was wrong.
- Hashes of one password with different salts differ, and each matches the password.
- What is typed into the login form is what is checked.
- A name on a page cannot bring markup with it, nor end the JSON string that it stands in.

Argon2, the random source of the operating system, header maps and lossy UTF-8 decoding are called
through a few functions whose contracts are taken on trust; each says in its comment what it
claims.

## HTTP endpoints

| Method | Path | Behavior |
|---|---|---|
| GET | `/` | Redirect to `/restricted` (if signed in) or `/login` |
| GET | `/login` | Server-rendered login form (no JavaScript) |
| POST | `/login` | Verify credentials, create a session, set the cookie, 303 |
| GET | `/restricted` | Gated content; requires a valid session |
| GET | `/api/ping` | Auth-gated JSON; 401 without a session |
| POST | `/logout` | Destroy the session and clear the cookie |

Sessions are in memory, and the demo credentials (`agent`, `tor-rocks`) are part of the source.
