//! Settings: where the repository lies, how snapshots are kept, which
//! ignore file is read. The settings of a project and of a context are laid
//! over the global ones.

pub mod context;
pub mod project;
pub mod resolver;

pub use context::ContextConfig;
pub use project::ProjectConfig;
pub use resolver::{ConfigResolver, ResolveOptions};

use vstd::prelude::*;
use crate::error::MoteError;
use crate::path_resolver::{join, join_spec};
use crate::text::str_eq;

verus! {

/// How the repository directory is chosen.
#[derive(Debug, Clone, Copy, PartialEq, Eq, Structural)]
pub enum LocationStrategy {
    /// `.mote` in the project root.
    Root,
    /// `mote` inside the directory of the version control system.
    Vcs,
    /// As `Vcs` where there is such a directory, else as `Root`.
    Auto,
}

impl Default for LocationStrategy {
    fn default() -> (strategy: Self)
        ensures
            strategy == LocationStrategy::Root,
    {
        LocationStrategy::Root
    }
}

/// Where the repository lies and how hard objects are compressed.
#[derive(Debug, Clone, PartialEq, Eq)]
pub struct StorageConfig {
    pub location_strategy: LocationStrategy,
    pub compression_level: i32,
}

/// The zstd level used where none is set.
pub fn default_compression_level() -> (level: i32)
    ensures
        level == 3,
{
    3
}

impl Default for StorageConfig {
    fn default() -> (config: Self)
        ensures
            config.location_strategy == LocationStrategy::Root,
            config.compression_level == 3,
    {
        StorageConfig {
            location_strategy: LocationStrategy::Root,
            compression_level: default_compression_level(),
        }
    }
}

/// How many snapshots are kept, how long, and when garbage is collected.
#[derive(Debug, Clone, PartialEq, Eq)]
pub struct SnapshotConfig {
    pub auto_cleanup: bool,
    pub max_snapshots: u32,
    pub max_age_days: u32,
    pub gc_auto_enabled: bool,
    pub gc_auto: usize,
}

/// The default of a switch that is on unless it is set off.
pub fn default_true() -> (b: bool)
    ensures
        b,
{
    true
}

/// The number of snapshots kept where none is set.
pub fn default_max_snapshots() -> (n: u32)
    ensures
        n == 1000,
{
    1000
}

/// The age in days up to which snapshots are kept where none is set.
pub fn default_max_age_days() -> (n: u32)
    ensures
        n == 30,
{
    30
}

/// The threshold of automatic collection where none is set.
pub fn default_gc_auto() -> (n: usize)
    ensures
        n == 100,
{
    100
}

impl Default for SnapshotConfig {
    fn default() -> (config: Self)
        ensures
            config.auto_cleanup,
            config.max_snapshots == 1000,
            config.max_age_days == 30,
            !config.gc_auto_enabled,
            config.gc_auto == 100,
    {
        SnapshotConfig {
            auto_cleanup: default_true(),
            max_snapshots: default_max_snapshots(),
            max_age_days: default_max_age_days(),
            gc_auto_enabled: false,
            gc_auto: default_gc_auto(),
        }
    }
}

/// Which ignore file is read.
#[derive(Debug, Clone, PartialEq, Eq)]
pub struct IgnoreConfig {
    pub ignore_file: String,
}

/// The name of the ignore file where none is set.
pub fn default_ignore_file() -> (name: String)
    ensures
        name@ == ".moteignore"@,
{
    String::from_str(".moteignore")
}

impl Default for IgnoreConfig {
    fn default() -> (config: Self)
        ensures
            config.ignore_file@ == ".moteignore"@,
    {
        IgnoreConfig { ignore_file: default_ignore_file() }
    }
}

/// The settings.
#[derive(Debug, Clone, PartialEq, Eq)]
pub struct Config {
    pub storage: StorageConfig,
    pub snapshot: SnapshotConfig,
    pub ignore: IgnoreConfig,
}

/// Whether `config` holds the default of every setting.
pub open spec fn is_default_config(config: Config) -> bool {
    &&& config.storage.location_strategy == LocationStrategy::Root
    &&& config.storage.compression_level == 3
    &&& config.snapshot.auto_cleanup
    &&& config.snapshot.max_snapshots == 1000
    &&& config.snapshot.max_age_days == 30
    &&& !config.snapshot.gc_auto_enabled
    &&& config.snapshot.gc_auto == 100
    &&& config.ignore.ignore_file@ == ".moteignore"@
}

impl Default for Config {
    fn default() -> (config: Self)
        ensures
            is_default_config(config),
    {
        Config {
            storage: StorageConfig::default(),
            snapshot: SnapshotConfig::default(),
            ignore: IgnoreConfig::default(),
        }
    }
}

impl Config {
    /// A copy of these settings.
    pub fn copy(&self) -> (out: Config)
        ensures
            out == *self,
    {
        Config {
            storage: StorageConfig {
                location_strategy: self.storage.location_strategy,
                compression_level: self.storage.compression_level,
            },
            snapshot: SnapshotConfig {
                auto_cleanup: self.snapshot.auto_cleanup,
                max_snapshots: self.snapshot.max_snapshots,
                max_age_days: self.snapshot.max_age_days,
                gc_auto_enabled: self.snapshot.gc_auto_enabled,
                gc_auto: self.snapshot.gc_auto,
            },
            ignore: IgnoreConfig { ignore_file: self.ignore.ignore_file.clone() },
        }
    }

    /// The file of the global settings: `mote/config.toml` under the
    /// user's configuration directory, where there is one.
    pub fn global_config_path(user_config_dir: Option<&str>) -> (path: Option<String>)
        ensures
            match user_config_dir {
                Some(dir) => path matches Some(p) && p@ == join_spec(
                    join_spec(dir@, "mote"@),
                    "config.toml"@,
                ),
                None => path is None,
            },
    {
        match user_config_dir {
            Some(dir) => {
                let mote = join(dir, "mote");
                Some(join(mote.as_str(), "config.toml"))
            },
            None => None,
        }
    }

    /// The global settings: what the settings file gave, or the defaults
    /// where there is no such file.
    pub fn load(read: Option<Result<Config, MoteError>>) -> (r: Result<Config, MoteError>)
        ensures
            match read {
                Some(outcome) => r == outcome,
                None => r matches Ok(config) && is_default_config(config),
            },
    {
        match read {
            Some(outcome) => outcome,
            None => Ok(Config::default()),
        }
    }
}

/// The first complaint about `name` as the name of a project or context,
/// if there is one. The rules, in the order in which they are tried: not
/// empty; at most 255 bytes; no `..`, `/` or `\`; first an ASCII letter or
/// `_`; then only ASCII letters, digits, `-` and `_`; none of the device
/// names that Windows reserves, in any case of the letters.
pub open spec fn name_complaint(name: Seq<char>) -> Option<Seq<char>> {
    if name.len() == 0 {
        Some("Name cannot be empty"@)
    } else if vstd::utf8::encode_utf8(name).len() > 255 {
        Some(
            "Name too long ("@ + crate::text::decimal_text(vstd::utf8::encode_utf8(name).len())
                + " chars, max 255)"@,
        )
    } else if crate::text::has_substring(name, ".."@) || name.contains('/') || name.contains('\\') {
        Some("Name cannot contain path separators or '..'"@)
    } else if name == "."@ {
        Some("Name cannot be '.'"@)
    } else if !is_name_start(name[0]) {
        Some(
            "Name must start with alphabetic character or underscore, got '"@.push(name[0])
                + "'"@,
        )
    } else if first_bad_char(name) < name.len() {
        Some(
            "Invalid character '"@.push(name[first_bad_char(name)]) + "' at position "@
                + crate::text::decimal_text(first_bad_char(name) as nat),
        )
    } else if is_reserved_word(name.map_values(|c: char| ascii_upper(c))) {
        Some("'"@ + name + "' is a reserved word"@)
    } else {
        None
    }
}

/// An ASCII letter.
pub open spec fn is_ascii_letter(c: char) -> bool {
    ('a' <= c && c <= 'z') || ('A' <= c && c <= 'Z')
}

/// What a name may start with: an ASCII letter or `_`.
pub open spec fn is_name_start(c: char) -> bool {
    is_ascii_letter(c) || c == '_'
}

/// What a name may hold: ASCII letters and digits, `-` and `_`.
pub open spec fn is_name_char(c: char) -> bool {
    is_ascii_letter(c) || ('0' <= c && c <= '9') || c == '-' || c == '_'
}

/// The position of the first character that a name may not hold, or the
/// length of the name where there is none.
pub open spec fn first_bad_char(name: Seq<char>) -> int
    decreases name.len(),
{
    if name.len() == 0 {
        0
    } else if !is_name_char(name[0]) {
        0
    } else {
        1 + first_bad_char(name.drop_first())
    }
}

/// The upper-case form of an ASCII letter; any other character as it is.
pub open spec fn ascii_upper(c: char) -> char {
    if 'a' <= c && c <= 'z' {
        ((c as u8 - 32) as u8) as char
    } else {
        c
    }
}

/// The device names that Windows reserves.
pub open spec fn is_reserved_word(upper: Seq<char>) -> bool {
    ||| upper == "CON"@
    ||| upper == "PRN"@
    ||| upper == "AUX"@
    ||| upper == "NUL"@
    ||| upper == "COM1"@
    ||| upper == "COM2"@
    ||| upper == "COM3"@
    ||| upper == "COM4"@
    ||| upper == "COM5"@
    ||| upper == "COM6"@
    ||| upper == "COM7"@
    ||| upper == "COM8"@
    ||| upper == "COM9"@
    ||| upper == "LPT1"@
    ||| upper == "LPT2"@
    ||| upper == "LPT3"@
    ||| upper == "LPT4"@
    ||| upper == "LPT5"@
    ||| upper == "LPT6"@
    ||| upper == "LPT7"@
    ||| upper == "LPT8"@
    ||| upper == "LPT9"@
}

proof fn lemma_first_bad_char(name: Seq<char>)
    ensures
        0 <= first_bad_char(name) <= name.len(),
        forall|j: int| 0 <= j < first_bad_char(name) ==> is_name_char(name[j]),
        first_bad_char(name) < name.len() ==> !is_name_char(name[first_bad_char(name)]),
    decreases name.len(),
{
    if name.len() == 0 {
    } else if !is_name_char(name[0]) {
    } else {
        let rest = name.drop_first();
        lemma_first_bad_char(rest);
        assert forall|j: int| 0 <= j < first_bad_char(name) implies is_name_char(name[j]) by {
            if j > 0 {
                assert(rest[j - 1] == name[j]);
            }
        }
        if first_bad_char(name) < name.len() {
            assert(rest[first_bad_char(rest)] == name[first_bad_char(name)]);
        }
    }
}

/// If every character before `at` may stand in a name and the one at `at`
/// may not, `at` is the first bad position.
proof fn lemma_first_bad_char_is(name: Seq<char>, at: int)
    requires
        0 <= at <= name.len(),
        forall|j: int| 0 <= j < at ==> is_name_char(name[j]),
        at < name.len() ==> !is_name_char(name[at]),
    ensures
        first_bad_char(name) == at,
{
    lemma_first_bad_char(name);
    let found = first_bad_char(name);
    if found < at {
        assert(is_name_char(name[found]));
    } else if found > at {
        assert(is_name_char(name[at]));
    }
}

pub(crate) fn is_name_char_exec(c: char) -> (r: bool)
    ensures
        r == is_name_char(c),
{
    ('a' <= c && c <= 'z') || ('A' <= c && c <= 'Z') || ('0' <= c && c <= '9') || c == '-' || c
        == '_'
}

fn upper_of(c: char) -> (u: char)
    ensures
        u == ascii_upper(c),
{
    if 'a' <= c && c <= 'z' {
        ((c as u8) - 32) as char
    } else {
        c
    }
}

pub(crate) fn is_reserved(upper: &str) -> (r: bool)
    ensures
        r == is_reserved_word(upper@),
{
    str_eq(upper, "CON") || str_eq(upper, "PRN") || str_eq(upper, "AUX") || str_eq(upper, "NUL")
        || str_eq(upper, "COM1") || str_eq(upper, "COM2") || str_eq(upper, "COM3") || str_eq(
        upper,
        "COM4",
    ) || str_eq(upper, "COM5") || str_eq(upper, "COM6") || str_eq(upper, "COM7") || str_eq(
        upper,
        "COM8",
    ) || str_eq(upper, "COM9") || str_eq(upper, "LPT1") || str_eq(upper, "LPT2") || str_eq(
        upper,
        "LPT3",
    ) || str_eq(upper, "LPT4") || str_eq(upper, "LPT5") || str_eq(upper, "LPT6") || str_eq(
        upper,
        "LPT7",
    ) || str_eq(upper, "LPT8") || str_eq(upper, "LPT9")
}

fn first_bad_position(chars: &Vec<char>) -> (at: usize)
    ensures
        at == first_bad_char(chars@),
        at <= chars@.len(),
{
    let mut i: usize = 0;
    while i < chars.len()
        invariant
            i <= chars.len(),
            forall|j: int| 0 <= j < i ==> is_name_char(chars@[j]),
        decreases chars.len() - i,
    {
        if !is_name_char_exec(chars[i]) {
            proof {
                lemma_first_bad_char_is(chars@, i as int);
            }
            return i;
        }
        i += 1;
    }
    proof {
        lemma_first_bad_char_is(chars@, chars@.len() as int);
    }
    i
}

pub(crate) fn upper_text(chars: &Vec<char>) -> (upper: String)
    ensures
        upper@ == chars@.map_values(|c: char| ascii_upper(c)),
{
    let mut upper = String::new();
    let mut k: usize = 0;
    while k < chars.len()
        invariant
            k <= chars.len(),
            upper@ == chars@.take(k as int).map_values(|c: char| ascii_upper(c)),
        decreases chars.len() - k,
    {
        upper.push(upper_of(chars[k]));
        k += 1;
        assert(upper@ =~= chars@.take(k as int).map_values(|c: char| ascii_upper(c)));
    }
    assert(chars@.take(chars@.len() as int) =~= chars@);
    upper
}

pub(crate) fn has_char(chars: &Vec<char>, c: char) -> (r: bool)
    ensures
        r == chars@.contains(c),
{
    let found = crate::text::find_char(chars, c);
    proof {
        crate::text::lemma_first_index_of(chars@, c);
    }
    found.is_some()
}

/// Checks the name of a project or of a context.
pub fn validate_name(name: &str) -> (r: Result<(), MoteError>)
    ensures
        match name_complaint(name@) {
            None => r is Ok,
            Some(text) => r matches Err(MoteError::InvalidName(said)) && said@ == text,
        },
{
    let chars = crate::text::chars_of(name);
    if chars.len() == 0 {
        return Err(MoteError::InvalidName(String::from_str("Name cannot be empty")));
    }
    let bytes = name.as_bytes().len();
    if bytes > 255 {
        let mut said = String::from_str("Name too long (");
        said.append(crate::text::decimal(bytes as u64).as_str());
        said.append(" chars, max 255)");
        return Err(MoteError::InvalidName(said));
    }
    let dots = crate::text::chars_of("..");
    proof {
        reveal_strlit(".");
    }
    if crate::text::contains_chars(&chars, &dots) || has_char(&chars, '/') || has_char(
        &chars,
        '\\',
    ) {
        return Err(
            MoteError::InvalidName(
                String::from_str("Name cannot contain path separators or '..'"),
            ),
        );
    }
    if chars.len() == 1 && chars[0] == '.' {
        assert(name@ =~= "."@);
        return Err(MoteError::InvalidName(String::from_str("Name cannot be '.'")));
    }
    let first = chars[0];
    if !(('a' <= first && first <= 'z') || ('A' <= first && first <= 'Z') || first == '_') {
        let mut said = String::from_str(
            "Name must start with alphabetic character or underscore, got '",
        );
        said.push(first);
        said.append("'");
        return Err(MoteError::InvalidName(said));
    }
    let bad = first_bad_position(&chars);
    if bad < chars.len() {
        let mut said = String::from_str("Invalid character '");
        said.push(chars[bad]);
        said.append("' at position ");
        said.append(crate::text::decimal(bad as u64).as_str());
        return Err(MoteError::InvalidName(said));
    }
    let upper = upper_text(&chars);
    if is_reserved(upper.as_str()) {
        let said = crate::text::concat3("'", name, "' is a reserved word");
        return Err(MoteError::InvalidName(said));
    }
    Ok(())
}

} // verus!
