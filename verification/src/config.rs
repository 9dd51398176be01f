//! The hasher configuration (`hashers.toml`) and how its entries become
//! hashers.

use vstd::prelude::*;

use crate::hashers::{ExternalHasher, HashAlgorithm, RustSha256Hasher};

verus! {

/// The whole configuration file: a list of `[[hasher]]` entries.
#[derive(Debug)]
pub struct HasherConfigFile {
    pub hasher: Vec<HasherEntry>,
}

/// One `[[hasher]]` entry.
#[derive(Debug)]
pub struct HasherEntry {
    pub name: String,
    pub hasher_type: HasherType,
    pub command: Option<String>,
    pub args: Option<Vec<String>>,
    pub algorithm: HashAlgorithm,
    pub input_mode: Option<InputMode>,
}

#[derive(Debug, Clone, Copy, PartialEq, Eq, Structural)]
pub enum HasherType {
    Builtin,
    External,
}

/// How an external command receives the key.
#[derive(Debug, Clone, Copy, PartialEq, Eq, Structural)]
pub enum InputMode {
    Arg,
    Stdin,
    File,
}

/// A hasher as the configuration describes it.
pub enum ConfiguredHasher {
    Builtin(RustSha256Hasher),
    External(ExternalHasher),
}

/// Why an entry cannot be turned into a hasher.
#[derive(Debug)]
pub enum ConfigProblem {
    /// A built-in hasher other than `Rust`.
    UnknownBuiltin(String),
    /// The built-in `Rust` hasher with an algorithm other than SHA-256.
    UnsupportedRustAlgorithm(HashAlgorithm),
    /// An external hasher without a command.
    MissingCommand,
}

/// Why an entry cannot be used, if it cannot: builtin entries must be named
/// `Rust` and use SHA-256; external entries must give a command.
pub open spec fn entry_problem_spec(e: HasherEntry) -> Option<ConfigProblem> {
    match e.hasher_type {
        HasherType::Builtin => if e.name@ != "Rust"@ {
            Some(ConfigProblem::UnknownBuiltin(e.name))
        } else if e.algorithm != HashAlgorithm::Sha256 {
            Some(ConfigProblem::UnsupportedRustAlgorithm(e.algorithm))
        } else {
            None
        },
        HasherType::External => if e.command is None {
            Some(ConfigProblem::MissingCommand)
        } else {
            None
        },
    }
}

/// `h` is the hasher that the usable entry `e` describes: the built-in one,
/// or an external one with the entry's name, command, arguments (none when
/// absent), algorithm and input mode (`Arg` when absent).
pub open spec fn built_from(h: ConfiguredHasher, e: HasherEntry) -> bool {
    match h {
        ConfiguredHasher::Builtin(_) => e.hasher_type == HasherType::Builtin,
        ConfiguredHasher::External(x) => {
            &&& e.hasher_type == HasherType::External
            &&& x.name@ == e.name@
            &&& e.command matches Some(c) && x.command@ == c@
            &&& x.args@ == match e.args {
                Some(a) => a@,
                None => Seq::<String>::empty(),
            }
            &&& x.algorithm == e.algorithm
            &&& x.input_mode == match e.input_mode {
                Some(m) => m,
                None => InputMode::Arg,
            }
        },
    }
}

/// The first entry that cannot be used, with its index and problem.
pub open spec fn first_problem(entries: Seq<HasherEntry>) -> Option<(int, ConfigProblem)>
    decreases entries.len(),
{
    if entries.len() == 0 {
        None
    } else {
        match first_problem(entries.drop_last()) {
            Some(p) => Some(p),
            None => match entry_problem_spec(entries.last()) {
                Some(p) => Some((entries.len() - 1, p)),
                None => None,
            },
        }
    }
}

fn is_rust_name(name: &String) -> (r: bool)
    ensures
        r == (name@ == "Rust"@),
{
    let rust = String::from_str("Rust");
    *name == rust
}

/// Why an entry cannot be used, if it cannot.
pub fn entry_problem(entry: &HasherEntry) -> (r: Option<ConfigProblem>)
    ensures
        r == entry_problem_spec(*entry),
{
    match entry.hasher_type {
        HasherType::Builtin => {
            if !is_rust_name(&entry.name) {
                Some(ConfigProblem::UnknownBuiltin(entry.name.clone()))
            } else if entry.algorithm != HashAlgorithm::Sha256 {
                Some(ConfigProblem::UnsupportedRustAlgorithm(entry.algorithm))
            } else {
                None
            }
        },
        HasherType::External => {
            if entry.command.is_none() {
                Some(ConfigProblem::MissingCommand)
            } else {
                None
            }
        },
    }
}

/// The built-in hasher for an algorithm; only SHA-256 is built in.
pub fn create_rust_hasher(alg: HashAlgorithm) -> (h: RustSha256Hasher)
    requires
        alg == HashAlgorithm::Sha256,
{
    RustSha256Hasher
}

/// The hasher that a usable entry describes.
pub fn hasher_from_entry(entry: HasherEntry) -> (h: ConfiguredHasher)
    requires
        entry_problem_spec(entry) is None,
    ensures
        built_from(h, entry),
{
    let ghost e = entry;
    match entry.hasher_type {
        HasherType::Builtin => ConfiguredHasher::Builtin(create_rust_hasher(entry.algorithm)),
        HasherType::External => {
            let command = match entry.command {
                Some(c) => c,
                None => String::new(),
            };
            let args = match entry.args {
                Some(a) => a,
                None => Vec::new(),
            };
            let input_mode = match entry.input_mode {
                Some(m) => m,
                None => InputMode::Arg,
            };
            ConfiguredHasher::External(
                ExternalHasher {
                    name: entry.name,
                    command,
                    args,
                    algorithm: entry.algorithm,
                    input_mode,
                },
            )
        },
    }
}

/// Turns every entry of the configuration into a hasher, in order.  The
/// first entry that cannot be used stops the reading; its problem is
/// returned.
pub fn hashers_from_config(config: HasherConfigFile) -> (r: Result<Vec<ConfiguredHasher>, (usize, ConfigProblem)>)
    ensures
        match r {
            Ok(hs) => first_problem(config.hasher@) is None && hs@.len() == config.hasher@.len()
                && forall|i: int| 0 <= i < hs@.len() ==> built_from(#[trigger] hs@[i], config.hasher@[i]),
            Err((i, p)) => first_problem(config.hasher@) == Some((i as int, p)),
        },
{
    let ghost entries = config.hasher@;
    let n = config.hasher.len();
    let mut i: usize = 0;
    while i < n
        invariant
            n == entries.len(),
            entries == config.hasher@,
            i <= n,
            first_problem(entries.take(i as int)) is None,
        decreases n - i,
    {
        assert(entries.take(i + 1).drop_last() =~= entries.take(i as int));
        assert(entries.take(i + 1).last() == entries[i as int]);
        match entry_problem(&config.hasher[i]) {
            Some(p) => {
                proof {
                    lemma_first_problem_prefix(entries, i as int + 1);
                }
                return Err((i, p));
            },
            None => {},
        }
        i = i + 1;
    }
    assert(entries.take(n as int) =~= entries);
    let mut pending = config.hasher;
    let mut out: Vec<ConfiguredHasher> = Vec::new();
    let mut j: usize = 0;
    while j < n
        invariant
            n == entries.len(),
            first_problem(entries) is None,
            j <= n,
            pending@ == entries.skip(j as int),
            out@.len() == j,
            forall|k: int| 0 <= k < j ==> built_from(#[trigger] out@[k], entries[k]),
        decreases n - j,
    {
        proof {
            lemma_no_problem_entry(entries, j as int);
        }
        let entry = pending.remove(0);
        assert(pending@ =~= entries.skip(j + 1));
        out.push(hasher_from_entry(entry));
        j = j + 1;
    }
    Ok(out)
}

/// The first problem of a list starts the same on a longer list, and a
/// problem found after a clean prefix is the first one.
proof fn lemma_first_problem_prefix(entries: Seq<HasherEntry>, k: int)
    requires
        0 < k <= entries.len(),
        first_problem(entries.take(k - 1)) is None,
        entry_problem_spec(entries[k - 1]) is Some,
    ensures
        first_problem(entries) == Some((k - 1, entry_problem_spec(entries[k - 1])->0)),
    decreases entries.len(),
{
    assert(entries.take(k).drop_last() =~= entries.take(k - 1));
    if k < entries.len() {
        assert(entries.drop_last().take(k) =~= entries.take(k));
        assert(entries.drop_last().take(k - 1) =~= entries.take(k - 1));
        lemma_first_problem_prefix(entries.drop_last(), k);
    } else {
        assert(entries.take(k) =~= entries);
        assert(entries.drop_last() =~= entries.take(k - 1));
    }
}

/// In a list without a problem, no entry has one.
proof fn lemma_no_problem_entry(entries: Seq<HasherEntry>, j: int)
    requires
        first_problem(entries) is None,
        0 <= j < entries.len(),
    ensures
        entry_problem_spec(entries[j]) is None,
    decreases entries.len(),
{
    if j < entries.len() - 1 {
        lemma_no_problem_entry(entries.drop_last(), j);
    }
}

/// Law: a usable external entry becomes an external hasher that keeps the
/// entry's name, command, arguments, algorithm and input mode.  A configured
/// input mode `m` (`Arg`, `Stdin` or `File`) is the hasher's mode; `Arg` is
/// taken only when the entry gives none; absent arguments become none.
pub proof fn lemma_external_entry_keeps_its_settings(
    h: ConfiguredHasher,
    e: HasherEntry,
    m: InputMode,
    c: String,
)
    requires
        built_from(h, e),
        e.hasher_type == HasherType::External,
    ensures
        h is External,
        h matches ConfiguredHasher::External(x) && x.name@ == e.name@ && x.algorithm == e.algorithm,
        e.command == Some(c) ==> (h matches ConfiguredHasher::External(x) && x.command@ == c@),
        e.input_mode == Some(m) ==> (h matches ConfiguredHasher::External(x) && x.input_mode == m),
        e.input_mode is None ==> (h matches ConfiguredHasher::External(x) && x.input_mode
            == InputMode::Arg),
        e.args is None ==> (h matches ConfiguredHasher::External(x) && x.args@.len() == 0),
        e.args matches Some(a) ==> (h matches ConfiguredHasher::External(x) && x.args@.len()
            == a@.len() && forall|i: int| 0 <= i < a@.len() ==> #[trigger] x.args@[i] == a@[i]),
{
}

/// Law: a usable builtin entry becomes the built-in hasher.
pub proof fn lemma_builtin_entry_is_builtin(h: ConfiguredHasher, e: HasherEntry)
    requires
        built_from(h, e),
        e.hasher_type == HasherType::Builtin,
    ensures
        h is Builtin,
{
}

/// Law: reading a configuration keeps the order and number of entries, and
/// each external entry's configured input mode `m` is the mode of the hasher
/// at the same position.
pub proof fn lemma_configuration_keeps_input_modes(
    entries: Seq<HasherEntry>,
    hs: Seq<ConfiguredHasher>,
    i: int,
    m: InputMode,
)
    requires
        hs.len() == entries.len(),
        forall|k: int| 0 <= k < hs.len() ==> built_from(#[trigger] hs[k], entries[k]),
        0 <= i < entries.len(),
        entries[i].hasher_type == HasherType::External,
        entries[i].input_mode == Some(m),
    ensures
        hs[i] matches ConfiguredHasher::External(x) && x.input_mode == m,
{
    assert(built_from(hs[i], entries[i]));
}

} // verus!
