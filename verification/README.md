# anime_mod_manager

A 3DMigoto (GIMI) mod manager for Genshin Impact: it browses GameBanana,
downloads mod archives with resumable transfers, installs them under the
importer's `Mods` directory, keeps per-mod metadata in `.anime-mod.json`,
and manages the GIMI runtime release.

The library under `src/` is written in Verus: each public function states
its behaviour in `requires` / `ensures`, and Verus proves the code meets it.

## Layout

- `src/models.rs`, `src/text.rs`, `src/paths.rs`, `src/order.rs` – the data
  model and the text, path and ordering rules everything else uses.
- `src/gamebanana.rs`, `src/cdn_client.rs`, `src/cache.rs`,
  `src/filter_data.rs` – catalog requests, answers and the local card cache.
- `src/catalog_view.rs`, `src/name_query.rs`, `src/detail_view.rs` – filters,
  the search language, paging and the detail view.
- `src/meta_manager.rs`, `src/manager.rs` – the metadata index and the
  install / enable / disable / uninstall plans.
- `src/download_queue.rs`, `src/download_task.rs`, `src/scheduler.rs`,
  `src/transfer.rs` – the download list and the notices its listeners get;
  task states, the shared control cells of running executions, the steps
  and events of one execution; admission (within the concurrency limit,
  first come first served) and retries; resumable transfers, including the
  chunked catalog download with its redirect chain.
- `src/restore.rs` – stored downloads brought back at start-up: in which
  order, and whether each is shown failed, kept paused or resumed; and the
  folder name a fresh download installs into.
- `src/img_cache.rs`, `src/downloads.rs`, `src/pixels.rs` – cover images.
- `src/runtime.rs`, `src/config.rs`, `src/perf.rs`, `src/i18n.rs` – runtime
  releases, settings, the timing log and label interpolation.
- `app/` – a command-line front end: HTTP, files, archives and JSON.
- `tests/` – tests of the library on concrete values.
