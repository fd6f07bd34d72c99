# search_cache

A caching proxy in front of a paid search service. Every upstream call costs money, so that each
distinct search is to be paid for once per lifetime, whoever asks it.

`src/` is the library, verified with Verus: what a request means, under which key its answer is
kept, what is sent upstream, which answers are taken, and what a client is told. `app/` is the
service around it: routes, the shared cache, the upstream client, and the reading of JSON bodies and
queries.

| Module | What it holds |
|---|---|
| `text`, `order`, `number` | words, case, white space; texts in order; decimal numbers |
| `json`, `json_code` | JSON text, and that different values have different texts |
| `hash` | the BLAKE3 digest |
| `model` | search requests, and the shape in which they are sent |
| `key`, `key_laws` | the key of a request; what it leaves out and what it tells apart |
| `payload` | the body of the upstream request |
| `response`, `parallel` | what is taken and shown of upstream answers |
| `cache` | kept answers: tag, weight, time left |
| `config` | settings from the environment |
| `query`, `reply`, `handlers` | incoming requests, replies, and what is answered to what |

## API

```
GET  /v1/search?q=nike+shoes&q=stock+price&mode=turbo
POST /v1/search   { "objective": "...", "search_queries": ["..."], "mode": "turbo", ... }
GET  /health      { ok, cache: { entries, bytes, hits, misses, upstream_errors, hit_rate } }
```

Answers carry `x-cache: HIT|MISS`, `x-cache-key` and an `ETag`; a client that sends the tag back in
`If-None-Match` is answered with 304. `session_id` neither enters the key nor is sent upstream.

## Settings

`PARALLEL_API_KEY` has to be set. `HOST`, `PORT`, `PARALLEL_BASE_URL`, `DEFAULT_MODE`,
`CACHE_TTL_SECS`, `CACHE_TTL_VOLATILE_SECS`, `CACHE_MAX_BYTES`, `REQUEST_TIMEOUT_SECS`,
`SEARCH_API_KEY`, `CDN_CACHE` (`public`, `private` or `off`) and `TOKIO_WORKER_THREADS` may be.
