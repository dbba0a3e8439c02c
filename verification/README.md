# update-via-github

Self-updating Windows desktop applications from GitHub Releases, with the decisions verified in
Verus.

The library (`src/`) decides; it makes no calls to the network, the file system or other
processes. Where it needs one, it says which, and takes in the outcome.

| module | what it decides |
|--------|-----------------|
| `config` | the settings, and whether they can work |
| `version` | what a version text says, and which of two versions is newer |
| `release` | whether a release is an update, and which of its assets to take |
| `http` | the course of one HTTPS request: status, length, size limit, progress |
| `checksum` | SHA-256 checksums: reading, computing, comparing |
| `download` | what to fetch, and whether the executable may be stored |
| `install` | the script that replaces the running executable, and how it is started |
| `manager` | which work may begin, and what comes of it |
| `names`, `url`, `number`, `text` | file names, addresses, decimal numbers, characters |

Each function states in its `ensures` what it returns. Proof functions whose names begin with
`law_` state what holds across functions: that versions are strictly ordered, that a body is
delivered whole and within its limit, that no update is stored that fails its checks, that one
worker is at work at a time.

The code around it (`app/`) makes the calls, through WinHTTP, `serde_json`, the file system and
PowerShell.

## Use

```rust
let config = UpdateConfig::new("owner/my-app", "MyApp.exe", env!("CARGO_PKG_VERSION"))
    .with_app_name("MyApp")
    .with_max_download_size(50 * 1024 * 1024);

let updater = UpdateManager::new(config);
updater.start_check(false);
```

`UpdateManager` has `status`, `start_check`, `start_download` and `apply_ready`. Applications with
a state machine of their own call `check_latest_release`, `download_update` and `apply_update`.

If GitHub tells the SHA-256 digest of the selected asset, the download is held to it. A checksum
asset can be named with `with_checksum_asset`. With `with_required_checksum(true)` no update is
stored without a checksum that it matches.

## What is trusted

The contracts of `Sha256::digest`, `std::str::from_utf8`, `String::push`, `String::from`, the
identity conversion `From<T> for T`, and the clone of a `PathBuf`. Everything else in `src/` is
proved.
