//! Where the engine keeps its persistent data.
use vstd::prelude::*;
use crate::text::owned;

verus! {

/// Appends a relative component to a Unix path as `PathBuf::push` does: a `/` is
/// inserted unless the path is empty or already ends with one.
pub open spec fn join_path(dir: Seq<char>, comp: Seq<char>) -> Seq<char> {
    if dir.len() == 0 || dir.last() == '/' {
        dir + comp
    } else {
        dir + seq!['/'] + comp
    }
}

/// The data directory under a home directory (`.` when there is none):
/// `<home>/.evento/data`.
pub open spec fn default_data_dir(home: Option<String>) -> Seq<char> {
    join_path(
        join_path(
            match home {
                Some(h) => h@,
                None => "."@,
            },
            ".evento"@,
        ),
        "data"@,
    )
}

/// The default cache capacity of the operational store: 1 GiB.
pub const DEFAULT_SLED_CACHE_CAPACITY: u64 = 1073741824;

/// The default flush interval of the operational store, in milliseconds.
pub const DEFAULT_SLED_FLUSH_INTERVAL_MS: u64 = 2000;

/// Storage settings: the data directory and the tuning of the embedded store.
#[derive(Debug, Clone)]
pub struct StorageConfig {
    /// Root directory of all persistent data.
    pub data_dir: String,
    /// Cache capacity of the embedded key-value store, in bytes.
    pub sled_cache_capacity: u64,
    /// Flush interval of the embedded key-value store, in milliseconds.
    pub sled_flush_interval_ms: u64,
}

fn push_component(dir: &mut String, comp: &str)
    requires
        comp@.len() > 0,
    ensures
        final(dir)@ == join_path(old(dir)@, comp@),
{
    let n = dir.as_str().unicode_len();
    if n > 0 && dir.as_str().get_char(n - 1) != '/' {
        dir.append("/");
        proof {
            reveal_strlit("/");
        }
    }
    dir.append(comp);
}

/// The home directory from `dirs::home_dir`, as text; it depends on the environment,
/// so nothing is claimed of it.
#[verifier::external_body]
fn home_dir() -> Option<String> {
    dirs::home_dir().map(|p| p.to_string_lossy().into_owned())
}

impl StorageConfig {
    /// The configuration rooted at `<home>/.evento/data`, or `./.evento/data`
    /// when there is no home directory.
    pub fn with_home(home: Option<String>) -> (c: Self)
        ensures
            c.data_dir@ == default_data_dir(home),
            c.sled_cache_capacity == DEFAULT_SLED_CACHE_CAPACITY,
            c.sled_flush_interval_ms == DEFAULT_SLED_FLUSH_INTERVAL_MS,
    {
        proof {
            reveal_strlit(".evento");
            reveal_strlit("data");
        }
        let mut data_dir = match home {
            Some(h) => h,
            None => owned("."),
        };
        push_component(&mut data_dir, ".evento");
        push_component(&mut data_dir, "data");
        StorageConfig {
            data_dir,
            sled_cache_capacity: DEFAULT_SLED_CACHE_CAPACITY,
            sled_flush_interval_ms: DEFAULT_SLED_FLUSH_INTERVAL_MS,
        }
    }

    /// The directory of the embedded key-value store: `<data_dir>/sled`.
    pub fn sled_dir(&self) -> (p: String)
        ensures
            p@ == join_path(self.data_dir@, "sled"@),
    {
        proof {
            reveal_strlit("sled");
        }
        let mut dir = self.data_dir.clone();
        push_component(&mut dir, "sled");
        dir
    }

    /// The analytics database file: `<data_dir>/duckdb/evento.db`.
    pub fn duckdb_path(&self) -> (p: String)
        ensures
            p@ == join_path(join_path(self.data_dir@, "duckdb"@), "evento.db"@),
    {
        proof {
            reveal_strlit("duckdb");
            reveal_strlit("evento.db");
        }
        let mut path = self.data_dir.clone();
        push_component(&mut path, "duckdb");
        push_component(&mut path, "evento.db");
        path
    }
}

impl Default for StorageConfig {
    /// The configuration rooted at `.evento/data` under the home directory.
    fn default() -> (c: Self)
        ensures
            c.sled_cache_capacity == DEFAULT_SLED_CACHE_CAPACITY,
            c.sled_flush_interval_ms == DEFAULT_SLED_FLUSH_INTERVAL_MS,
            exists|h: Option<String>| c.data_dir@ == #[trigger] default_data_dir(h),
    {
        let home = home_dir();
        StorageConfig::with_home(home)
    }
}

/// Whatever the data directory, the store directory ends with `sled` and the
/// analytics file with `evento.db`.
pub proof fn lemma_paths_end_with_names(dir: Seq<char>)
    ensures
        crate::text::has_suffix(join_path(dir, "sled"@), "sled"@),
        crate::text::has_suffix(join_path(join_path(dir, "duckdb"@), "evento.db"@), "evento.db"@),
{
    let a = join_path(dir, "sled"@);
    assert(a.subrange(a.len() - "sled"@.len(), a.len() as int) =~= "sled"@);
    let d = join_path(dir, "duckdb"@);
    let b = join_path(d, "evento.db"@);
    assert(b.subrange(b.len() - "evento.db"@.len(), b.len() as int) =~= "evento.db"@);
}

} // verus!
