//! The raw option table: the flat list of `key=value` and bare `key`
//! entries that the host hands over, read as a map from key to value.
//!
//! An entry is split at its first `=` only, so a value may itself hold
//! `=`. A bare entry, one without `=`, has its own key for its value. When
//! a key occurs more than once, the last entry wins. Keys and values are
//! opaque bytes; shape is only asked of a value when it is read through one
//! of the typed accessors.

use vstd::prelude::*;
use vstd::string::*;
use vstd::utf8::{decode_utf8, valid_utf8};

use crate::text::{
    append_bytes, bytes_eq, copy_bytes, copy_range, decimal_u32, decimal_u64, find_byte,
    first_index, flag_value, id_list, parse_flag, parse_id_list, parse_u32, parse_u64, rows, split,
    split_on, string_from_utf8, EQUALS,
};

verus! {

/// Why a typed accessor could not produce a value.
#[derive(Clone, Copy, Debug, PartialEq, Eq, Structural)]
pub enum ValueError {
    /// The table has no entry under the key.
    Missing,
    /// The table has an entry under the key, but its value does not have
    /// the shape that was asked for.
    Malformed,
}

/// The key of a raw entry: everything before its first `=`, or the whole
/// entry when it has none.
pub open spec fn entry_key(entry: Seq<u8>) -> Seq<u8> {
    entry.take(first_index(entry, EQUALS))
}

/// The value a raw entry spells out: everything after its first `=`.
/// A bare entry spells out none.
pub open spec fn entry_value(entry: Seq<u8>) -> Option<Seq<u8>> {
    let at = first_index(entry, EQUALS);
    if at < entry.len() {
        Some(entry.skip(at + 1))
    } else {
        None
    }
}

/// The value a raw entry is read as: the one it spells out, or its own
/// key when it is bare.
pub open spec fn entry_reading(entry: Seq<u8>) -> Seq<u8> {
    match entry_value(entry) {
        Some(value) => value,
        None => entry_key(entry),
    }
}

/// The raw entry that gives `key` the value `value`.
pub open spec fn entry(key: Seq<u8>, value: Seq<u8>) -> Seq<u8> {
    key + seq![EQUALS] + value
}

/// Whether a byte string can be told apart from a value when it stands as
/// a key: it holds no `=`.
pub open spec fn is_key(key: Seq<u8>) -> bool {
    forall|i: int| 0 <= i < key.len() ==> key[i] != EQUALS
}

/// The table that a list of raw entries stands for. Later entries replace
/// earlier ones with the same key.
pub open spec fn table_of(entries: Seq<Seq<u8>>) -> Map<Seq<u8>, Seq<u8>>
    decreases entries.len(),
{
    if entries.len() == 0 {
        Map::empty()
    } else {
        table_of(entries.drop_last()).insert(
            entry_key(entries.last()),
            entry_reading(entries.last()),
        )
    }
}

/// What reading `table` under `key` gives, when `parse` says which values
/// have the shape asked for: `Missing` without an entry, `Malformed` with
/// an entry of another shape, and else the parsed value.
pub open spec fn read_as<T>(
    table: Map<Seq<u8>, Seq<u8>>,
    key: Seq<u8>,
    parse: spec_fn(Seq<u8>) -> Option<T>,
) -> Result<T, ValueError> {
    if !table.contains_key(key) {
        Err(ValueError::Missing)
    } else {
        match parse(table[key]) {
            Some(value) => Ok(value),
            None => Err(ValueError::Malformed),
        }
    }
}

/// The text that a value writes: its decoding, when it is well-formed
/// UTF-8.
pub open spec fn string_value(value: Seq<u8>) -> Option<Seq<char>> {
    if valid_utf8(value) {
        Some(decode_utf8(value))
    } else {
        None
    }
}

/// The entry under `key` read as text.
pub open spec fn string_at(table: Map<Seq<u8>, Seq<u8>>, key: Seq<u8>) -> Result<
    Seq<char>,
    ValueError,
> {
    read_as(table, key, |value: Seq<u8>| string_value(value))
}

/// The entry under `key` read as a path: the bytes as they are, whatever
/// they are.
pub open spec fn path_at(table: Map<Seq<u8>, Seq<u8>>, key: Seq<u8>) -> Result<
    Seq<u8>,
    ValueError,
> {
    read_as(table, key, |value: Seq<u8>| Some(value))
}

/// The entry under `key` read as a truth value.
pub open spec fn flag_at(table: Map<Seq<u8>, Seq<u8>>, key: Seq<u8>) -> Result<bool, ValueError> {
    read_as(table, key, |value: Seq<u8>| flag_value(key, value))
}

/// The entry under `key` read as a decimal number that fits in 32 bits.
pub open spec fn u32_at(table: Map<Seq<u8>, Seq<u8>>, key: Seq<u8>) -> Result<u32, ValueError> {
    read_as(table, key, |value: Seq<u8>| decimal_u32(value))
}

/// The entry under `key` read as a decimal number that fits in 64 bits.
pub open spec fn u64_at(table: Map<Seq<u8>, Seq<u8>>, key: Seq<u8>) -> Result<u64, ValueError> {
    read_as(table, key, |value: Seq<u8>| decimal_u64(value))
}

/// The entry under `key` read as a comma-separated list of ids.
pub open spec fn id_list_at(table: Map<Seq<u8>, Seq<u8>>, key: Seq<u8>) -> Result<
    Seq<u32>,
    ValueError,
> {
    read_as(table, key, |value: Seq<u8>| id_list(value))
}

/// The entry under `key` read as a list of paths with `delimiter` between
/// them.
pub open spec fn path_list_at(
    table: Map<Seq<u8>, Seq<u8>>,
    key: Seq<u8>,
    delimiter: u8,
) -> Result<Seq<Seq<u8>>, ValueError> {
    read_as(table, key, |value: Seq<u8>| Some(split_on(value, delimiter)))
}

/// Whether two tables have the same to say under `key`: both lack an
/// entry, or both hold the same value.
pub open spec fn agree_on(
    a: Map<Seq<u8>, Seq<u8>>,
    b: Map<Seq<u8>, Seq<u8>>,
    key: Seq<u8>,
) -> bool {
    a.contains_key(key) == b.contains_key(key) && (a.contains_key(key) ==> a[key] == b[key])
}

/// Every typed reading under a key depends on nothing but what the table
/// has to say under that key.
pub proof fn lemma_same_reading(a: Map<Seq<u8>, Seq<u8>>, b: Map<Seq<u8>, Seq<u8>>, key: Seq<u8>)
    requires
        agree_on(a, b, key),
    ensures
        string_at(a, key) == string_at(b, key),
        path_at(a, key) == path_at(b, key),
        flag_at(a, key) == flag_at(b, key),
        u32_at(a, key) == u32_at(b, key),
        u64_at(a, key) == u64_at(b, key),
        id_list_at(a, key) == id_list_at(b, key),
        forall|delimiter: u8| path_list_at(a, key, delimiter) == path_list_at(b, key, delimiter),
{
}

/// One entry of a table: a key, and the value if one was spelled out.
#[derive(Clone, Debug, PartialEq, Eq)]
pub struct RawOption {
    pub key: Vec<u8>,
    pub value: Option<Vec<u8>>,
}

impl RawOption {
    /// The value the entry is read as: the one spelled out, or the key
    /// when the entry is bare.
    pub open spec fn reading(&self) -> Seq<u8> {
        match self.value {
            Some(value) => value@,
            None => self.key@,
        }
    }

    /// Splits a raw entry at its first `=`.
    pub fn parse(entry: &[u8]) -> (option: RawOption)
        ensures
            option.key@ == entry_key(entry@),
            match option.value {
                Some(value) => entry_value(entry@) == Some(value@),
                None => entry_value(entry@) is None,
            },
            option.reading() == entry_reading(entry@),
    {
        let at = find_byte(entry, EQUALS);
        let key = copy_range(entry, 0, at);
        if at < entry.len() {
            let value = copy_range(entry, at + 1, entry.len());
            RawOption { key, value: Some(value) }
        } else {
            RawOption { key, value: None }
        }
    }

    /// The raw entry this option is written as: the key alone when it is
    /// bare, and else the key, `=` and the value.
    pub open spec fn written(&self) -> Seq<u8> {
        match self.value {
            Some(value) => entry(self.key@, value@),
            None => self.key@,
        }
    }

    /// Writes the option as a raw entry.
    pub fn to_bytes(&self) -> (out: Vec<u8>)
        ensures
            out@ == self.written(),
    {
        let mut out = copy_bytes(self.key.as_slice());
        match &self.value {
            Some(value) => {
                out.push(EQUALS);
                append_bytes(&mut out, value.as_slice());
            },
            None => {},
        }
        out
    }

    /// The value the entry is read as.
    pub fn value_or_key(&self) -> (value: &Vec<u8>)
        ensures
            value@ == self.reading(),
    {
        match &self.value {
            Some(value) => value,
            None => &self.key,
        }
    }
}

/// The table that a list of parsed entries stands for.
pub open spec fn table_of_options(options: Seq<RawOption>) -> Map<Seq<u8>, Seq<u8>>
    decreases options.len(),
{
    if options.len() == 0 {
        Map::empty()
    } else {
        table_of_options(options.drop_last()).insert(options.last().key@, options.last().reading())
    }
}

/// Whether no two entries of the list share a key.
pub open spec fn distinct_keys(options: Seq<RawOption>) -> bool {
    forall|i: int, j: int| 0 <= i < j < options.len() ==> options[i].key@ != options[j].key@
}

/// In a list without repeated keys, the table holds exactly the keys of
/// the list, each with the reading of its entry.
proof fn lemma_table_lookup(options: Seq<RawOption>, key: Seq<u8>)
    requires
        distinct_keys(options),
    ensures
        table_of_options(options).contains_key(key) <==> exists|i: int|
            0 <= i < options.len() && #[trigger] options[i].key@ == key,
        forall|i: int|
            0 <= i < options.len() && #[trigger] options[i].key@ == key ==> table_of_options(
                options,
            )[key] == options[i].reading(),
    decreases options.len(),
{
    if options.len() > 0 {
        let front = options.drop_last();
        lemma_table_lookup(front, key);
        if exists|i: int| 0 <= i < options.len() && #[trigger] options[i].key@ == key {
            let i = choose|i: int| 0 <= i < options.len() && #[trigger] options[i].key@ == key;
            if i < options.len() - 1 {
                assert(front[i].key@ == key);
            }
        }
    }
}

/// Replacing the entry that holds a key changes the table as an insertion
/// under that key does, and repeats no key.
proof fn lemma_table_replace(options: Seq<RawOption>, at: int, option: RawOption)
    requires
        distinct_keys(options),
        0 <= at < options.len(),
        options[at].key@ == option.key@,
    ensures
        distinct_keys(options.update(at, option)),
        table_of_options(options.update(at, option)) == table_of_options(options).insert(
            option.key@,
            option.reading(),
        ),
    decreases options.len(),
{
    let updated = options.update(at, option);
    let front = options.drop_last();
    if at == options.len() - 1 {
        assert(updated.drop_last() =~= front);
    } else {
        lemma_table_replace(front, at, option);
        assert(updated.drop_last() =~= front.update(at, option));
    }
}

/// Adding an entry under a new key repeats no key.
proof fn lemma_table_push(options: Seq<RawOption>, option: RawOption)
    requires
        distinct_keys(options),
        forall|i: int| 0 <= i < options.len() ==> options[i].key@ != option.key@,
    ensures
        distinct_keys(options.push(option)),
        table_of_options(options.push(option)) == table_of_options(options).insert(
            option.key@,
            option.reading(),
        ),
{
    assert(options.push(option).drop_last() =~= options);
}

/// Where the entry under `key` is held in the list, or the length of the
/// list when there is none.
fn position(options: &Vec<RawOption>, key: &[u8]) -> (at: usize)
    ensures
        at <= options@.len(),
        at < options@.len() ==> options@[at as int].key@ == key@,
        at == options@.len() ==> forall|i: int|
            0 <= i < options@.len() ==> options@[i].key@ != key@,
{
    let mut at: usize = 0;
    while at < options.len()
        invariant
            0 <= at <= options@.len(),
            forall|i: int| 0 <= i < at ==> options@[i].key@ != key@,
        decreases options@.len() - at,
    {
        if bytes_eq(options[at].key.as_slice(), key) {
            return at;
        }
        at += 1;
    }
    at
}

/// Puts an entry into the list, in place of any that had its key.
fn put(options: &mut Vec<RawOption>, option: RawOption)
    requires
        distinct_keys(old(options)@),
    ensures
        distinct_keys(final(options)@),
        table_of_options(final(options)@) == table_of_options(old(options)@).insert(
            option.key@,
            option.reading(),
        ),
{
    let at = position(options, option.key.as_slice());
    if at < options.len() {
        proof {
            lemma_table_replace(options@, at as int, option);
        }
        options.set(at, option);
    } else {
        proof {
            lemma_table_push(options@, option);
        }
        options.push(option);
    }
}

/// A table of options, each key held once.
#[derive(Debug)]
pub struct OptionMap {
    options: Vec<RawOption>,
}

impl View for OptionMap {
    type V = Map<Seq<u8>, Seq<u8>>;

    /// The table as a map from key to the value it is read as.
    closed spec fn view(&self) -> Map<Seq<u8>, Seq<u8>> {
        table_of_options(self.options@)
    }
}

impl OptionMap {
    #[verifier::type_invariant]
    spec fn well_formed(self) -> bool {
        distinct_keys(self.options@)
    }

    /// The empty table.
    pub fn new() -> (table: OptionMap)
        ensures
            table@ == Map::<Seq<u8>, Seq<u8>>::empty(),
    {
        OptionMap { options: Vec::new() }
    }

    /// The table with one more entry, put in place of any that had its key.
    pub fn with_option(self, option: RawOption) -> (table: OptionMap)
        ensures
            table@ == self@.insert(option.key@, option.reading()),
    {
        proof {
            use_type_invariant(&self);
        }
        let mut options = self.options;
        put(&mut options, option);
        OptionMap { options }
    }

    /// Reads a list of raw entries into a table.
    ///
    /// An empty list gives the empty table. No entry is refused.
    pub fn from_entries(entries: &Vec<Vec<u8>>) -> (table: OptionMap)
        ensures
            table@ == table_of(rows(entries@)),
    {
        let mut options: Vec<RawOption> = Vec::new();
        let mut i: usize = 0;
        while i < entries.len()
            invariant
                0 <= i <= entries.len(),
                distinct_keys(options@),
                table_of_options(options@) == table_of(rows(entries@).take(i as int)),
            decreases entries.len() - i,
        {
            let option = RawOption::parse(entries[i].as_slice());
            put(&mut options, option);
            assert(rows(entries@).take(i + 1).drop_last() =~= rows(entries@).take(i as int));
            i += 1;
        }
        assert(rows(entries@).take(i as int) =~= rows(entries@));
        OptionMap { options }
    }

    /// Whether the table has an entry under `key`.
    pub fn contains_key(&self, key: &[u8]) -> (found: bool)
        ensures
            found == self@.contains_key(key@),
    {
        proof {
            use_type_invariant(self);
            lemma_table_lookup(self.options@, key@);
        }
        let at = position(&self.options, key);
        at < self.options.len()
    }

    /// The value under `key`, as the bytes the host wrote.
    pub fn get_bytes(&self, key: &[u8]) -> (value: Option<&Vec<u8>>)
        ensures
            match value {
                Some(bytes) => self@.contains_key(key@) && bytes@ == self@[key@],
                None => !self@.contains_key(key@),
            },
    {
        proof {
            use_type_invariant(self);
            lemma_table_lookup(self.options@, key@);
        }
        let at = position(&self.options, key);
        if at < self.options.len() {
            Some(self.options[at].value_or_key())
        } else {
            None
        }
    }

    /// Reads the entry under `key` as text.
    ///
    /// Fails with `Missing` when there is no such entry, and with
    /// `Malformed` when its value is not well-formed UTF-8.
    pub fn get_string(&self, key: &str) -> (r: Result<String, ValueError>)
        ensures
            match r {
                Ok(text) => string_at(self@, key.spec_bytes()) == Ok::<Seq<char>, ValueError>(
                    text@,
                ),
                Err(e) => string_at(self@, key.spec_bytes()) == Err::<Seq<char>, ValueError>(e),
            },
    {
        match self.get_bytes(key.as_bytes()) {
            None => Err(ValueError::Missing),
            Some(value) => match string_from_utf8(copy_bytes(value.as_slice())) {
                Some(text) => Ok(text),
                None => Err(ValueError::Malformed),
            },
        }
    }

    /// Reads the entry under `key` as a path. Any bytes make a path, so
    /// this fails only with `Missing`, when there is no such entry.
    pub fn get_path(&self, key: &str) -> (r: Result<Vec<u8>, ValueError>)
        ensures
            match r {
                Ok(path) => path_at(self@, key.spec_bytes()) == Ok::<Seq<u8>, ValueError>(path@),
                Err(e) => path_at(self@, key.spec_bytes()) == Err::<Seq<u8>, ValueError>(e),
            },
    {
        match self.get_bytes(key.as_bytes()) {
            None => Err(ValueError::Missing),
            Some(value) => Ok(copy_bytes(value.as_slice())),
        }
    }

    /// Reads the entry under `key` as a truth value: `true`, `false`, or
    /// the bare key, which means true.
    ///
    /// Fails with `Missing` when there is no such entry, and with
    /// `Malformed` when its value is none of the three.
    pub fn get_bool(&self, key: &str) -> (r: Result<bool, ValueError>)
        ensures
            r == flag_at(self@, key.spec_bytes()),
    {
        match self.get_bytes(key.as_bytes()) {
            None => Err(ValueError::Missing),
            Some(value) => match parse_flag(key.as_bytes(), value.as_slice()) {
                Some(flag) => Ok(flag),
                None => Err(ValueError::Malformed),
            },
        }
    }

    /// Reads the entry under `key` as an unsigned decimal number of at most
    /// 32 bits.
    ///
    /// Fails with `Missing` when there is no such entry, and with
    /// `Malformed` when its value is not such a number.
    pub fn get_u32(&self, key: &str) -> (r: Result<u32, ValueError>)
        ensures
            r == u32_at(self@, key.spec_bytes()),
    {
        match self.get_bytes(key.as_bytes()) {
            None => Err(ValueError::Missing),
            Some(value) => match parse_u32(value.as_slice()) {
                Some(number) => Ok(number),
                None => Err(ValueError::Malformed),
            },
        }
    }

    /// Reads the entry under `key` as an unsigned decimal number of at most
    /// 64 bits.
    ///
    /// Fails with `Missing` when there is no such entry, and with
    /// `Malformed` when its value is not such a number.
    pub fn get_u64(&self, key: &str) -> (r: Result<u64, ValueError>)
        ensures
            r == u64_at(self@, key.spec_bytes()),
    {
        match self.get_bytes(key.as_bytes()) {
            None => Err(ValueError::Missing),
            Some(value) => match parse_u64(value.as_slice()) {
                Some(number) => Ok(number),
                None => Err(ValueError::Malformed),
            },
        }
    }

    /// Reads the entry under `key` as a comma-separated list of ids.
    ///
    /// Fails with `Missing` when there is no such entry, and with
    /// `Malformed` when any member of the list is not an unsigned decimal
    /// number of at most 32 bits.
    pub fn get_id_list(&self, key: &str) -> (r: Result<Vec<u32>, ValueError>)
        ensures
            match r {
                Ok(ids) => id_list_at(self@, key.spec_bytes()) == Ok::<Seq<u32>, ValueError>(ids@),
                Err(e) => id_list_at(self@, key.spec_bytes()) == Err::<Seq<u32>, ValueError>(e),
            },
    {
        match self.get_bytes(key.as_bytes()) {
            None => Err(ValueError::Missing),
            Some(value) => match parse_id_list(value.as_slice()) {
                Some(ids) => Ok(ids),
                None => Err(ValueError::Malformed),
            },
        }
    }

    /// Reads the entry under `key` as a list of paths with `delimiter`
    /// between them. Fails only with `Missing`, when there is no such
    /// entry.
    pub fn get_path_list(&self, key: &str, delimiter: u8) -> (r: Result<Vec<Vec<u8>>, ValueError>)
        ensures
            match r {
                Ok(paths) => path_list_at(self@, key.spec_bytes(), delimiter) == Ok::<
                    Seq<Seq<u8>>,
                    ValueError,
                >(rows(paths@)),
                Err(e) => path_list_at(self@, key.spec_bytes(), delimiter) == Err::<
                    Seq<Seq<u8>>,
                    ValueError,
                >(e),
            },
    {
        match self.get_bytes(key.as_bytes()) {
            None => Err(ValueError::Missing),
            Some(value) => Ok(split(value.as_slice(), delimiter)),
        }
    }
}

} // verus!
