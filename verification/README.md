# arle

Verified host-side logic of the ARLE inference stack, written in Verus.

- `src/expert_state.rs`: expert-parallel placement (which rank owns which
  expert, local/global expert indices, routing localisation, the TileKernels
  tensor-parallel index mask).
- `src/activation.rs`: forward/backward dispatch and tape bookkeeping of the
  elementwise activations.
- `src/chat.rs`, `src/json.rs`: OpenAI-style chat content, the DeepSeek-V4
  prompt encoding and tool-call parsing.
- `src/modelscope.rs`: model ids, repository listings, download planning,
  cache layout and URLs of the ModelScope downloader.
- `src/checkpoint.rs`: tensor-parallel shards, block-scale indexing and read
  plans of quantized checkpoint tensors, shape checks of the DeepSeek-V4
  loader.
- `src/recurrent_state.rs`: recurrent-state sizes and snapshot rollback.
- `src/xgrammar.rs`: grammar-matcher configuration and bitmask sizing.
- `src/text.rs`, `src/arith.rs`: character-sequence and arithmetic helpers.

`app/` holds what stays outside verification: HTTP and file I/O, the serde
forms of the wire types, environment lookups and floating-point kernels.
