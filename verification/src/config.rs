//! Configuration for the api: the shape of the configuration documents and
//! the rules that extract settings from them.
//!
//! Reading files, parsing TOML text and consulting the environment happen
//! outside the library; the parsed document is handed in as a [`TomlValue`]
//! tree of plain values, and everything from there on is checked.

use vstd::prelude::*;

use crate::strutil::str_eq;

verus! {

/// The different config paths we can load from.
pub enum PathType {
    General,
    Langs,
    Users,
}

impl PathType {
    /// The base file name this kind of configuration is read from.
    pub open spec fn base_name(self) -> Seq<char> {
        match self {
            PathType::General => "general"@,
            PathType::Langs => "langs"@,
            PathType::Users => "users"@,
        }
    }

    /// The file under `config_path` that this kind of configuration reads.
    pub fn get_path(&self, config_path: &String) -> (r: String)
        ensures
            r@ == config_path@ + "/"@ + self.base_name() + ".toml"@,
    {
        let mut s = config_path.clone();
        s.append("/");
        match self {
            PathType::General => s.append("general"),
            PathType::Langs => s.append("langs"),
            PathType::Users => s.append("users"),
        }
        s.append(".toml");
        proof {
            assert(s@ =~= config_path@ + "/"@ + self.base_name() + ".toml"@);
        }
        s
    }
}

/// An error raised while parsing a single configuration value.
#[derive(Debug)]
pub enum ConfigError {
    ParseIntError,
    ParseFloatError,
}

impl ConfigError {
    /// A short description of the error.
    pub fn message(&self) -> (r: String)
        ensures
            self is ParseIntError ==> r@ == "failed to parse int"@,
            self is ParseFloatError ==> r@ == "failed to parse float"@,
    {
        match self {
            ConfigError::ParseIntError => String::from_str("failed to parse int"),
            ConfigError::ParseFloatError => String::from_str("failed to parse float"),
        }
    }
}

/// Represents a possible language that the api may convert text into.
/// This is loaded on boot from the `langs` configuration file.
#[derive(Debug, Clone, PartialEq)]
pub struct Language {
    pub display_name: String,
    pub iso_691_code: String,
    pub festival_code: String,
    pub enabled: bool,
}

/// A configuration document: TOML data already parsed into plain values.
///
/// Tables keep their entries in file order. Fractional numbers do not occur
/// among the settings this library reads (speeds are handed over separately,
/// in half-steps), so the tree carries no floating point.
#[derive(Debug)]
pub enum TomlValue {
    Boolean(bool),
    Integer(i64),
    Text(String),
    Array(Vec<TomlValue>),
    Table(Vec<(String, TomlValue)>),
}

/// The first value under `key` in a table's entries, if any.
pub open spec fn spec_lookup(entries: Seq<(String, TomlValue)>, key: Seq<char>) -> Option<
    TomlValue,
>
    decreases entries.len(),
{
    if entries.len() == 0 {
        None
    } else if entries[0].0@ == key {
        Some(entries[0].1)
    } else {
        spec_lookup(entries.drop_first(), key)
    }
}

proof fn lemma_lookup_advance(entries: Seq<(String, TomlValue)>, key: Seq<char>, i: int)
    requires
        0 <= i <= entries.len(),
        forall|j: int| 0 <= j < i ==> entries[j].0@ != key,
    ensures
        spec_lookup(entries, key) == spec_lookup(entries.skip(i), key),
    decreases i,
{
    if i > 0 {
        assert(entries.skip(0) =~= entries);
        assert(entries[0].0@ != key);
        assert(entries.drop_first() =~= entries.skip(1));
        lemma_lookup_advance(entries.skip(1), key, i - 1);
        assert(entries.skip(1).skip(i - 1) =~= entries.skip(i));
    } else {
        assert(entries.skip(0) =~= entries);
    }
}

/// Find the first value under `key` in a table's entries.
pub fn table_get<'a>(entries: &'a Vec<(String, TomlValue)>, key: &str) -> (r: Option<
    &'a TomlValue,
>)
    ensures
        match r {
            Some(v) => spec_lookup(entries@, key@) == Some(*v),
            None => spec_lookup(entries@, key@) is None,
        },
{
    let n = entries.len();
    let mut i: usize = 0;
    while i < n
        invariant
            n == entries@.len(),
            i <= n,
            forall|j: int| 0 <= j < i ==> entries@[j].0@ != key@,
        decreases n - i,
    {
        if str_eq(entries[i].0.as_str(), key) {
            proof {
                lemma_lookup_advance(entries@, key@, i as int);
                assert(entries@.skip(i as int)[0] == entries@[i as int]);
            }
            return Some(&entries[i].1);
        }
        i = i + 1;
    }
    proof {
        lemma_lookup_advance(entries@, key@, n as int);
        assert(entries@.skip(n as int) =~= Seq::<(String, TomlValue)>::empty());
    }
    None
}

/// Opens a configuration document and attempts to find the value stored
/// under the provided key.
pub fn load_from_toml<'a>(doc: &'a TomlValue, name: &str, file_path: &str) -> (r: Result<
    &'a TomlValue,
    String,
>)
    ensures
        match r {
            Ok(v) => doc matches TomlValue::Table(e) && spec_lookup(e@, name@) == Some(*v),
            Err(m) => {
                &&& match *doc {
                    TomlValue::Table(ref e) => spec_lookup(e@, name@) is None,
                    _ => true,
                }
                &&& m@ == "Key Not found in "@ + file_path@
            },
        },
{
    let missing = |fp: &str| -> (m: String)
        ensures
            m@ == "Key Not found in "@ + fp@,
        {
            let mut s = String::from_str("Key Not found in ");
            s.append(fp);
            s
        };
    match doc {
        TomlValue::Table(entries) => match table_get(entries, name) {
            Some(v) => Ok(v),
            None => Err(missing(file_path)),
        },
        _ => Err(missing(file_path)),
    }
}

/// The named table inside a document's root table, if both exist.
pub open spec fn spec_table_at(doc: TomlValue, key: Seq<char>) -> Option<
    Seq<(String, TomlValue)>,
> {
    match doc {
        TomlValue::Table(root) => match spec_lookup(root@, key) {
            Some(TomlValue::Table(t)) => Some(t@),
            _ => None,
        },
        _ => None,
    }
}

/// Find the named table inside a document's root table.
pub fn load_table<'a>(doc: &'a TomlValue, table_name: &str, file_path: &str) -> (r: Result<
    &'a Vec<(String, TomlValue)>,
    String,
>)
    ensures
        match r {
            Ok(t) => spec_table_at(*doc, table_name@) == Some(t@),
            Err(_) => spec_table_at(*doc, table_name@) is None,
        },
{
    match doc {
        TomlValue::Table(entries) => match table_get(entries, table_name) {
            Some(TomlValue::Table(inner)) => Ok(inner),
            Some(_) => {
                let mut s = String::from_str("tag is not a table in ");
                s.append(file_path);
                Err(s)
            },
            None => {
                let mut s = String::from_str("Unable to parse ");
                s.append(file_path);
                s.append(", key not provided!");
                Err(s)
            },
        },
        _ => {
            let mut s = String::from_str("Unable to parse ");
            s.append(file_path);
            s.append(" as table.");
            Err(s)
        },
    }
}

/// The fields a language table must carry: enabled flag, festival voice
/// code, and iso 691-1 code.
pub open spec fn spec_lang_fields(entries: Seq<(String, TomlValue)>) -> Option<
    (bool, String, String),
> {
    match spec_lookup(entries, "enabled"@) {
        Some(TomlValue::Boolean(b)) => match spec_lookup(entries, "festvox"@) {
            Some(TomlValue::Text(f)) => match spec_lookup(entries, "iso_691-1_code"@) {
                Some(TomlValue::Text(i)) => Some((b, f, i)),
                _ => None,
            },
            _ => None,
        },
        _ => None,
    }
}

/// The language described by one entry of the `lang` table, if well formed.
pub open spec fn spec_lang_entry(name: String, v: TomlValue) -> Option<Language> {
    match v {
        TomlValue::Table(lt) => match spec_lang_fields(lt@) {
            Some((b, f, i)) => Some(
                Language {
                    display_name: name,
                    iso_691_code: i,
                    festival_code: f,
                    enabled: b,
                },
            ),
            None => None,
        },
        _ => None,
    }
}

/// The languages described by the first `n` entries of the `lang` table,
/// keyed by iso 691-1 code, or `None` if any of them is ill formed.
pub open spec fn spec_langs_upto(entries: Seq<(String, TomlValue)>, n: int) -> Option<
    Seq<(String, Language)>,
>
    decreases n,
{
    if n <= 0 {
        Some(Seq::empty())
    } else {
        match spec_langs_upto(entries, n - 1) {
            Some(s) => match spec_lang_entry(entries[n - 1].0, entries[n - 1].1) {
                Some(l) => Some(s.push((l.iso_691_code, l))),
                None => None,
            },
            None => None,
        }
    }
}

proof fn lemma_langs_upto_none(entries: Seq<(String, TomlValue)>, i: int, m: int)
    requires
        0 <= i < m <= entries.len(),
        spec_lang_entry(entries[i].0, entries[i].1) is None,
    ensures
        spec_langs_upto(entries, m) is None,
    decreases m,
{
    if m - 1 > i {
        lemma_langs_upto_none(entries, i, m - 1);
    }
}

proof fn lemma_texts_upto_none(vals: Seq<TomlValue>, i: int, m: int)
    requires
        0 <= i < m <= vals.len(),
        !(vals[i] is Text),
    ensures
        spec_texts_upto(vals, m) is None,
    decreases m,
{
    if m - 1 > i {
        lemma_texts_upto_none(vals, i, m - 1);
    }
}

/// The full language map a langs document describes, or `None` if the
/// document is ill formed.
pub open spec fn spec_langs(doc: TomlValue) -> Option<Seq<(String, Language)>> {
    match spec_table_at(doc, "lang"@) {
        Some(entries) => spec_langs_upto(entries, entries.len() as int),
        None => None,
    }
}

/// Read the supported languages out of a parsed langs document: each entry
/// of its `lang` table must carry an enabled flag, a festival voice code and
/// an iso 691-1 code, and is keyed by the latter.
pub fn load_supported_langs(doc: &TomlValue, file_path: &str) -> (r: Result<
    Vec<(String, Language)>,
    String,
>)
    ensures
        match r {
            Ok(v) => spec_langs(*doc) == Some(v@),
            Err(_) => spec_langs(*doc) is None,
        },
{
    let languages = match load_table(doc, "lang", file_path) {
        Ok(t) => t,
        Err(e) => {
            return Err(e);
        },
    };
    let n = languages.len();
    let mut map: Vec<(String, Language)> = Vec::new();
    let mut i: usize = 0;
    while i < n
        invariant
            n == languages@.len(),
            i <= n,
            spec_table_at(*doc, "lang"@) == Some(languages@),
            spec_langs_upto(languages@, i as int) == Some(map@),
        decreases n - i,
    {
        let key = &languages[i].0;
        let lang_table = match &languages[i].1 {
            TomlValue::Table(lt) => lt,
            _ => {
                let mut s = String::from_str("Unable to parse ");
                s.append(key.as_str());
                s.append(" as table from ");
                s.append(file_path);
                proof {
                    assert(spec_lang_entry(languages@[i as int].0, languages@[i as int].1)
                        is None);
                    lemma_langs_upto_none(languages@, i as int, n as int);
                }
                return Err(s);
            },
        };
        let enabled = match table_get(lang_table, "enabled") {
            Some(TomlValue::Boolean(b)) => *b,
            _ => {
                let mut s = String::from_str("Unable to parse enabled on ");
                s.append(key.as_str());
                s.append(" from ");
                s.append(file_path);
                proof {
                    assert(spec_lang_entry(languages@[i as int].0, languages@[i as int].1)
                        is None);
                    lemma_langs_upto_none(languages@, i as int, n as int);
                }
                return Err(s);
            },
        };
        let festival_code = match table_get(lang_table, "festvox") {
            Some(TomlValue::Text(f)) => f.clone(),
            _ => {
                let mut s = String::from_str("Unable to parse festival_code on ");
                s.append(key.as_str());
                s.append(" from ");
                s.append(file_path);
                proof {
                    assert(spec_lang_entry(languages@[i as int].0, languages@[i as int].1)
                        is None);
                    lemma_langs_upto_none(languages@, i as int, n as int);
                }
                return Err(s);
            },
        };
        let iso_691_code = match table_get(lang_table, "iso_691-1_code") {
            Some(TomlValue::Text(c)) => c.clone(),
            _ => {
                let mut s = String::from_str("Unable to parse iso-691-1_code on ");
                s.append(key.as_str());
                s.append(" from ");
                s.append(file_path);
                proof {
                    assert(spec_lang_entry(languages@[i as int].0, languages@[i as int].1)
                        is None);
                    lemma_langs_upto_none(languages@, i as int, n as int);
                }
                return Err(s);
            },
        };
        let lang = Language {
            display_name: key.clone(),
            iso_691_code: iso_691_code.clone(),
            festival_code,
            enabled,
        };
        map.push((iso_691_code, lang));
        i = i + 1;
    }
    Ok(map)
}

/// The text values of an array's first `n` elements, or `None` if one of
/// them is not text.
pub open spec fn spec_texts_upto(vals: Seq<TomlValue>, n: int) -> Option<Seq<String>>
    decreases n,
{
    if n <= 0 {
        Some(Seq::empty())
    } else {
        match spec_texts_upto(vals, n - 1) {
            Some(s) => match vals[n - 1] {
                TomlValue::Text(t) => Some(s.push(t)),
                _ => None,
            },
            None => None,
        }
    }
}

/// The list of strings stored under `key` in a document's root table.
pub open spec fn spec_text_list_at(doc: TomlValue, key: Seq<char>) -> Option<Seq<String>> {
    match doc {
        TomlValue::Table(root) => match spec_lookup(root@, key) {
            Some(TomlValue::Array(vals)) => spec_texts_upto(vals@, vals@.len() as int),
            _ => None,
        },
        _ => None,
    }
}

/// Read a list of strings stored under a root key of a document.
fn load_text_list(doc: &TomlValue, key: &str, file_path: &str) -> (r: Result<Vec<String>, String>)
    ensures
        match r {
            Ok(v) => spec_text_list_at(*doc, key@) == Some(v@),
            Err(_) => spec_text_list_at(*doc, key@) is None,
        },
{
    let not_found = |k: &str, fp: &str| -> String {
        let mut s = String::from_str("Unable to find ");
        s.append(k);
        s.append(" in ");
        s.append(fp);
        s
    };
    let vals = match doc {
        TomlValue::Table(root) => match table_get(root, key) {
            Some(TomlValue::Array(vals)) => vals,
            _ => {
                return Err(not_found(key, file_path));
            },
        },
        _ => {
            return Err(not_found(key, file_path));
        },
    };
    let n = vals.len();
    let mut res: Vec<String> = Vec::new();
    let mut i: usize = 0;
    while i < n
        invariant
            n == vals@.len(),
            i <= n,
            spec_text_list_at(*doc, key@) == spec_texts_upto(vals@, n as int),
            spec_texts_upto(vals@, i as int) == Some(res@),
        decreases n - i,
    {
        match &vals[i] {
            TomlValue::Text(t) => res.push(t.clone()),
            _ => {
                let mut s = String::from_str(key);
                s.append(" in ");
                s.append(file_path);
                s.append(" is not an array of strings!");
                proof {
                    lemma_texts_upto_none(vals@, i as int, n as int);
                }
                return Err(s);
            },
        }
        i = i + 1;
    }
    Ok(res)
}

/// Load the list of file formats the api may produce.
pub fn load_allowed_formats(doc: &TomlValue, file_path: &str) -> (r: Result<Vec<String>, String>)
    ensures
        match r {
            Ok(v) => spec_text_list_at(*doc, "ALLOWED_FORMATS"@) == Some(v@),
            Err(_) => spec_text_list_at(*doc, "ALLOWED_FORMATS"@) is None,
        },
{
    load_text_list(doc, "ALLOWED_FORMATS", file_path)
}

/// Load the list of phrases that are not allowed on this api.
pub fn load_blacklisted_phrases(doc: &TomlValue, file_path: &str) -> (r: Result<
    Vec<String>,
    String,
>)
    ensures
        match r {
            Ok(v) => spec_text_list_at(*doc, "BLACKLISTED_PHRASES"@) == Some(v@),
            Err(_) => spec_text_list_at(*doc, "BLACKLISTED_PHRASES"@) is None,
        },
{
    load_text_list(doc, "BLACKLISTED_PHRASES", file_path)
}

/// The text stored under `key` in a document's root table.
pub open spec fn spec_text_at(doc: TomlValue, key: Seq<char>) -> Option<String> {
    match doc {
        TomlValue::Table(root) => match spec_lookup(root@, key) {
            Some(TomlValue::Text(t)) => Some(t),
            _ => None,
        },
        _ => None,
    }
}

/// The integer stored under `key` in a document's root table.
pub open spec fn spec_int_at(doc: TomlValue, key: Seq<char>) -> Option<i64> {
    match doc {
        TomlValue::Table(root) => match spec_lookup(root@, key) {
            Some(TomlValue::Integer(i)) => Some(i),
            _ => None,
        },
        _ => None,
    }
}

/// Load the set of characters the api accepts in a phrase.
pub fn load_allowed_chars(doc: &TomlValue, file_path: &str) -> (r: Result<Vec<char>, String>)
    ensures
        match r {
            Ok(v) => match spec_text_at(*doc, "ALLOWED_CHARS"@) {
                Some(t) => v@ == t@,
                None => false,
            },
            Err(_) => spec_text_at(*doc, "ALLOWED_CHARS"@) is None,
        },
{
    match doc {
        TomlValue::Table(root) => match table_get(root, "ALLOWED_CHARS") {
            Some(TomlValue::Text(t)) => Ok(crate::strutil::str_to_chars(t.as_str())),
            _ => {
                let mut s = String::from_str("Unable to find ALLOWED_CHARS in ");
                s.append(file_path);
                Err(s)
            },
        },
        _ => {
            let mut s = String::from_str("Unable to find ALLOWED_CHARS in ");
            s.append(file_path);
            Err(s)
        },
    }
}

/// Read a text setting out of a document's root table.
pub fn load_text_setting(doc: &TomlValue, key: &str) -> (r: Result<String, String>)
    ensures
        match r {
            Ok(v) => spec_text_at(*doc, key@) == Some(v),
            Err(_) => spec_text_at(*doc, key@) is None,
        },
{
    match doc {
        TomlValue::Table(root) => match table_get(root, key) {
            Some(TomlValue::Text(t)) => Ok(t.clone()),
            _ => {
                let mut s = String::from_str("Unable to find setting ");
                s.append(key);
                Err(s)
            },
        },
        _ => {
            let mut s = String::from_str("Unable to find setting ");
            s.append(key);
            Err(s)
        },
    }
}

/// Convert a configuration integer to a size, rejecting values that do not
/// fit.
pub fn int_to_size(i: i64) -> (r: Option<usize>)
    ensures
        r is Some <==> 0 <= i <= usize::MAX,
        match r {
            Some(u) => u == i,
            None => true,
        },
{
    if i >= 0 {
        let u = i as u64;
        if u <= usize::MAX as u64 {
            Some(u as usize)
        } else {
            None
        }
    } else {
        None
    }
}

/// True when a root-table integer is present and fits a size.
pub open spec fn spec_size_ok(doc: TomlValue, key: Seq<char>) -> bool {
    match spec_int_at(doc, key) {
        Some(i) => 0 <= i <= usize::MAX,
        None => false,
    }
}

/// Read a non-negative size setting out of a document's root table.
pub fn load_size_setting(doc: &TomlValue, key: &str) -> (r: Result<usize, String>)
    ensures
        match r {
            Ok(v) => spec_int_at(*doc, key@) == Some(v as i64) && spec_size_ok(*doc, key@),
            Err(_) => match spec_int_at(*doc, key@) {
                Some(i) => !(0 <= i <= usize::MAX),
                None => true,
            },
        },
{
    match doc {
        TomlValue::Table(root) => match table_get(root, key) {
            Some(TomlValue::Integer(i)) => match int_to_size(*i) {
                Some(u) => Ok(u),
                None => {
                    let mut s = String::from_str("Setting out of range: ");
                    s.append(key);
                    Err(s)
                },
            },
            _ => {
                let mut s = String::from_str("Unable to find setting ");
                s.append(key);
                Err(s)
            },
        },
        _ => {
            let mut s = String::from_str("Unable to find setting ");
            s.append(key);
            Err(s)
        },
    }
}

/// The settings of the api.
///
/// Speeds are carried in half-steps: a value of `n` stands for a playback
/// speed of `n / 2`, so every representable speed is a multiple of one half.
pub struct Config {
    /// The name of the api which is sent with certain requests.
    pub api_name: String,
    /// The path to the cache for storing .wav files.
    pub cache_path: String,
    /// The path where temporary files are stored, and should be deleted from
    /// on a crash.
    pub temp_path: String,
    /// The maximum size of the cache that may be stored on the system, in MB.
    pub max_cache_size: usize,
    /// The maximum length of a phrase that the api will process.
    pub word_length_limit: usize,
    /// The maximum speed at which a phrase can be read, in half-steps.
    pub speed_max_val: i64,
    /// The lowest speed at which a phrase can be read, in half-steps.
    pub speed_min_val: i64,
    /// The supported speech languages, keyed by iso 691-1 code.
    pub supported_langs: Vec<(String, Language)>,
    /// The supported file formats; wav is the preferred format due to lower
    /// cpu usage.
    pub allowed_formats: Vec<String>,
    /// The characters that the api will accept as input.
    pub allowed_chars: Vec<char>,
    /// Phrases that are not allowed on this api.
    pub blacklisted_phrases: Vec<String>,
}

impl Config {
    /// Assemble a configuration from a parsed general document, a parsed
    /// langs document, and the speed bounds (in half-steps).
    pub fn new(general: &TomlValue, langs: &TomlValue, speed_min_val: i64, speed_max_val: i64) -> (r:
        Result<Config, String>)
        ensures
            r is Ok <==> {
                &&& spec_text_at(*general, "API_NAME"@) is Some
                &&& spec_text_at(*general, "CACHE_PATH"@) is Some
                &&& spec_text_at(*general, "TEMP_PATH"@) is Some
                &&& spec_size_ok(*general, "MAX_CACHE_SIZE_MB"@)
                &&& spec_size_ok(*general, "CHAR_LENGTH_LIMIT"@)
                &&& spec_langs(*langs) is Some
                &&& spec_text_list_at(*general, "ALLOWED_FORMATS"@) is Some
                &&& spec_text_at(*general, "ALLOWED_CHARS"@) is Some
                &&& spec_text_list_at(*general, "BLACKLISTED_PHRASES"@) is Some
            },
            match r {
                Ok(c) => {
                    &&& spec_text_at(*general, "API_NAME"@) == Some(c.api_name)
                    &&& spec_text_at(*general, "CACHE_PATH"@) == Some(c.cache_path)
                    &&& spec_text_at(*general, "TEMP_PATH"@) == Some(c.temp_path)
                    &&& spec_int_at(*general, "MAX_CACHE_SIZE_MB"@) == Some(c.max_cache_size as i64)
                    &&& spec_int_at(*general, "CHAR_LENGTH_LIMIT"@) == Some(
                        c.word_length_limit as i64,
                    )
                    &&& c.speed_min_val == speed_min_val
                    &&& c.speed_max_val == speed_max_val
                    &&& spec_langs(*langs) == Some(c.supported_langs@)
                    &&& spec_text_list_at(*general, "ALLOWED_FORMATS"@) == Some(c.allowed_formats@)
                    &&& match spec_text_at(*general, "ALLOWED_CHARS"@) {
                        Some(t) => c.allowed_chars@ == t@,
                        None => false,
                    }
                    &&& spec_text_list_at(*general, "BLACKLISTED_PHRASES"@) == Some(
                        c.blacklisted_phrases@,
                    )
                },
                Err(_) => true,
            },
    {
        let api_name = load_text_setting(general, "API_NAME")?;
        let cache_path = load_text_setting(general, "CACHE_PATH")?;
        let temp_path = load_text_setting(general, "TEMP_PATH")?;
        let max_cache_size = load_size_setting(general, "MAX_CACHE_SIZE_MB")?;
        let word_length_limit = load_size_setting(general, "CHAR_LENGTH_LIMIT")?;
        let supported_langs = load_supported_langs(langs, "langs.toml")?;
        let allowed_formats = load_allowed_formats(general, "general.toml")?;
        let allowed_chars = load_allowed_chars(general, "general.toml")?;
        let blacklisted_phrases = load_blacklisted_phrases(general, "general.toml")?;
        Ok(
            Config {
                api_name,
                cache_path,
                temp_path,
                max_cache_size,
                word_length_limit,
                speed_max_val,
                speed_min_val,
                supported_langs,
                allowed_formats,
                allowed_chars,
                blacklisted_phrases,
            },
        )
    }
}

#[allow(non_snake_case)]
impl Config {
    /// The name of the api.
    pub fn API_NAME(&self) -> (r: &String)
        ensures
            r == &self.api_name,
    {
        &self.api_name
    }

    /// The path of the cache directory.
    pub fn CACHE_PATH(&self) -> (r: &String)
        ensures
            r == &self.cache_path,
    {
        &self.cache_path
    }

    /// The path where temporary files are stored.
    pub fn TEMP_PATH(&self) -> (r: &String)
        ensures
            r == &self.temp_path,
    {
        &self.temp_path
    }

    /// The byte budget of the cache, in MB.
    pub fn MAX_CACHE_SIZE(&self) -> (r: usize)
        ensures
            r == self.max_cache_size,
    {
        self.max_cache_size
    }

    /// The longest phrase the api accepts, in bytes.
    pub fn WORD_LENGTH_LIMIT(&self) -> (r: usize)
        ensures
            r == self.word_length_limit,
    {
        self.word_length_limit
    }

    /// The highest accepted speed, in half-steps.
    pub fn SPEED_MAX_VAL(&self) -> (r: i64)
        ensures
            r == self.speed_max_val,
    {
        self.speed_max_val
    }

    /// The lowest accepted speed, in half-steps.
    pub fn SPEED_MIN_VAL(&self) -> (r: i64)
        ensures
            r == self.speed_min_val,
    {
        self.speed_min_val
    }

    /// The supported languages, keyed by iso 691-1 code.
    pub fn SUPPORTED_LANGS(&self) -> (r: &Vec<(String, Language)>)
        ensures
            r == &self.supported_langs,
    {
        &self.supported_langs
    }

    /// The supported output formats.
    pub fn ALLOWED_FORMATS(&self) -> (r: &Vec<String>)
        ensures
            r == &self.allowed_formats,
    {
        &self.allowed_formats
    }

    /// The characters accepted in a phrase.
    pub fn ALLOWED_CHARS(&self) -> (r: &Vec<char>)
        ensures
            r == &self.allowed_chars,
    {
        &self.allowed_chars
    }

    /// The phrases that are not allowed.
    pub fn BLACKLISTED_PHRASES(&self) -> (r: &Vec<String>)
        ensures
            r == &self.blacklisted_phrases,
    {
        &self.blacklisted_phrases
    }
}

} // verus!
