# safemlx_lm

Verified core of a language-model runtime: paged attention caches with bounded
device, host and disk tiers, persistent prompt caches, expert-parallel routing and
placement, sparse expert caching, background layer prefetching, and the layerwise
execution plans of the DeepSeek V3 and Gemma 4 architectures.

`src/` is the library. Every function carries a contract. Verus proves all of them but
those of five wrappers around outside calls, which it believes: `digest::sha256`
(SHA-256), `cache_residency::shard::parse_header` and `deserialize_shard` (safetensors),
`expert_parallel::loading::read_config_text` (JSON), and `text::debug_text` (quoting of
text). Arrays stand in the library as handles or rows; moving and computing them is the
business of an array runtime.

- `cache_residency`: blocks, eviction, rebalancing, leases, the disk worker, reports,
  and the manifests and shards of persistent prompt caches
- `cache`: key-value caches of one layer
- `expert_parallel`: ownership, routing, exchange, loading, and the model front end
- `expert_cache`: catalogs, route coalescing and statistics of cached experts
- `dense_stream`: options and the state of the background prefetcher
- `chat`: template profiles and tool policies
- `deepseek_v3`, `gemma4`, `layerwise`: what each architecture loads and runs
- `text`, `order`, `digest`, `rows`, `units`, `array`, `offload`, `duration`, `error`:
  what the others share

`app/` carries decisions out: threads, files, mapped shards, JSON manifests and process
statistics, generic over an array runtime. `tests/` holds concrete scenarios.
