# xinfer

Verified planning for the layers of large language models: which tensors a
rank reads from a checkpoint, how they are cut over the ranks, which format a
layer takes, how caches are filled and read, and in which order a pass goes.
Contracts and proofs are in Verus.

## Layout

- `src/` is the library. Tensors appear in it as what is decided about them:
  names, shapes, parts, rows and copies, all as integers and strings.
- `app/` holds the tensors and does the floating-point work with candle. The
  fused device kernels come in through one trait, `kernels::Kernels`.
- `tests/` runs the library on concrete configurations.

## Modules

| module | what it decides |
| --- | --- |
| `distributed`, `parallel`, `merged` | parts of the ranks, merged and padded weights, collectives |
| `linear`, `ggml`, `others` | formats of layers, block types, norms, tables, convolutions |
| `mlp`, `activation`, `attention`, `mla`, `minimax3` | feed-forward and attention layers |
| `moe` | routing, experts in each format, and their passes |
| `moe_w2_delta` | which experts are kept in higher precision |
| `ds_v4`, `deepseek4` | compressed caches, page pools, and a model that uses them |
| `gemma3`, `gemma4`, `dflash` | further models |
| `checkpoint`, `config`, `json`, `text`, `math`, `batch` | what the others are written with |

Functions named `law_...` state what holds between several operations.
