//! What holds of every table, whatever its entries: which entry decides
//! under a key, that the order of entries with different keys is of no
//! account, that a bare entry and one that spells its key out as its value
//! read alike, and that what is written into an entry is read back from the
//! table unchanged.

use vstd::prelude::*;
use vstd::string::*;
use vstd::utf8::{encode_utf8, encode_utf8_decode_utf8, encode_utf8_valid_utf8};

use crate::command_info::{lemma_command_info_reads_only_its_keys, CommandInfo};
use crate::keys::Key;
use crate::option_map::{
    entry, entry_key, entry_reading, entry_value, flag_at, is_key, path_at, string_at, table_of,
    u32_at, u64_at, RawOption, ValueError,
};
use crate::settings::{lemma_settings_reads_only_its_keys, Settings};
use crate::text::{
    decimal_digits, lemma_decimal_round_trip, lemma_first_index_unique, EQUALS,
};
use crate::user_info::{lemma_user_info_reads_only_its_keys, UserInfo};

verus! {

/// Whether no two entries of the list have the same key.
pub open spec fn distinct_entry_keys(entries: Seq<Seq<u8>>) -> bool {
    forall|i: int, j: int|
        0 <= i < j < entries.len() ==> entry_key(#[trigger] entries[i]) != entry_key(
            #[trigger] entries[j],
        )
}

/// An entry written from a key and a value is split into that key and
/// that value again.
pub proof fn lemma_entry_splits_back(key: Seq<u8>, value: Seq<u8>)
    requires
        is_key(key),
    ensures
        entry_key(entry(key, value)) == key,
        entry_value(entry(key, value)) == Some(value),
        entry_reading(entry(key, value)) == value,
{
    lemma_first_index_unique(entry(key, value), EQUALS, key.len() as int);
}

/// A bare entry has itself for key and for value, and so reads as the
/// entry that spells the same key out as its value.
pub proof fn lemma_bare_reads_as_explicit(flag: Seq<u8>)
    requires
        is_key(flag),
    ensures
        entry_key(flag) == flag,
        entry_value(flag) is None,
        entry_reading(flag) == flag,
        entry_key(entry(flag, flag)) == entry_key(flag),
        entry_reading(entry(flag, flag)) == entry_reading(flag),
{
    lemma_first_index_unique(flag, EQUALS, flag.len() as int);
    lemma_entry_splits_back(flag, flag);
}

/// An option whose key holds no `=` is split back, from the entry it is
/// written as, into the same key and the same value.
pub proof fn lemma_written_option_splits_back(option: RawOption)
    requires
        is_key(option.key@),
    ensures
        entry_key(option.written()) == option.key@,
        entry_reading(option.written()) == option.reading(),
        match option.value {
            Some(value) => entry_value(option.written()) == Some(value@),
            None => entry_value(option.written()) is None,
        },
{
    match option.value {
        Some(value) => lemma_entry_splits_back(option.key@, value@),
        None => lemma_bare_reads_as_explicit(option.key@),
    }
}

/// A table has an entry under a key exactly when some raw entry has that
/// key.
pub proof fn lemma_table_keys(entries: Seq<Seq<u8>>, key: Seq<u8>)
    ensures
        table_of(entries).contains_key(key) <==> exists|i: int|
            0 <= i < entries.len() && entry_key(#[trigger] entries[i]) == key,
    decreases entries.len(),
{
    if entries.len() > 0 {
        let front = entries.drop_last();
        lemma_table_keys(front, key);
        if exists|i: int| 0 <= i < entries.len() && entry_key(#[trigger] entries[i]) == key {
            let i = choose|i: int|
                0 <= i < entries.len() && entry_key(#[trigger] entries[i]) == key;
            if i < entries.len() - 1 {
                assert(entry_key(front[i]) == key);
            }
        }
    }
}

/// Where a key occurs more than once, the last entry wins: the table
/// reads under a key what the last raw entry with that key reads as.
pub proof fn lemma_last_entry_wins(entries: Seq<Seq<u8>>, at: int)
    requires
        0 <= at < entries.len(),
        forall|j: int|
            at < j < entries.len() ==> entry_key(#[trigger] entries[j]) != entry_key(entries[at]),
    ensures
        table_of(entries).contains_key(entry_key(entries[at])),
        table_of(entries)[entry_key(entries[at])] == entry_reading(entries[at]),
    decreases entries.len(),
{
    if at < entries.len() - 1 {
        lemma_last_entry_wins(entries.drop_last(), at);
    }
}

/// A table depends on its raw entries only through the key and the
/// reading of each.
pub proof fn lemma_table_congruence(a: Seq<Seq<u8>>, b: Seq<Seq<u8>>)
    requires
        a.len() == b.len(),
        forall|i: int|
            0 <= i < a.len() ==> entry_key(#[trigger] a[i]) == entry_key(b[i]) && entry_reading(
                a[i],
            ) == entry_reading(b[i]),
    ensures
        table_of(a) == table_of(b),
    decreases a.len(),
{
    if a.len() > 0 {
        lemma_table_congruence(a.drop_last(), b.drop_last());
    }
}

/// Anywhere in a list of entries, a bare entry can be exchanged for the
/// one that spells its key out as its value, and the table stays the same:
/// so does every typed value read from it.
pub proof fn lemma_bare_and_explicit_give_one_table(
    before: Seq<Seq<u8>>,
    flag: Seq<u8>,
    after: Seq<Seq<u8>>,
)
    requires
        is_key(flag),
    ensures
        table_of(before + seq![flag] + after) == table_of(
            before + seq![entry(flag, flag)] + after,
        ),
{
    lemma_bare_reads_as_explicit(flag);
    lemma_table_congruence(before + seq![flag] + after, before + seq![entry(flag, flag)] + after);
}

/// The order of the entries is of no account: two lists that hold the same
/// entries, each key once, stand for the same table.
pub proof fn lemma_order_is_of_no_account(a: Seq<Seq<u8>>, b: Seq<Seq<u8>>)
    requires
        distinct_entry_keys(a),
        distinct_entry_keys(b),
        forall|e: Seq<u8>| a.contains(e) <==> b.contains(e),
    ensures
        table_of(a) == table_of(b),
{
    assert forall|key: Seq<u8>| #[trigger]
        table_of(a).contains_key(key) == table_of(b).contains_key(key) && (table_of(
            a,
        ).contains_key(key) ==> table_of(a)[key] == table_of(b)[key]) by {
        lemma_table_keys(a, key);
        lemma_table_keys(b, key);
        if table_of(a).contains_key(key) {
            let i = choose|i: int| 0 <= i < a.len() && entry_key(#[trigger] a[i]) == key;
            assert(b.contains(a[i]));
            let j = choose|j: int| 0 <= j < b.len() && b[j] == a[i];
            lemma_last_entry_wins(a, i);
            lemma_last_entry_wins(b, j);
        }
        if table_of(b).contains_key(key) {
            let j = choose|j: int| 0 <= j < b.len() && entry_key(#[trigger] b[j]) == key;
            assert(a.contains(b[j]));
        }
    }
}

/// Each record is read alike from two lists that hold the same entries,
/// each key once, in whatever order.
pub proof fn lemma_records_ignore_order(a: Seq<Seq<u8>>, b: Seq<Seq<u8>>)
    requires
        distinct_entry_keys(a),
        distinct_entry_keys(b),
        forall|e: Seq<u8>| a.contains(e) <==> b.contains(e),
    ensures
        Settings::extract(table_of(a)) == Settings::extract(table_of(b)),
        UserInfo::extract(table_of(a)) == UserInfo::extract(table_of(b)),
        CommandInfo::extract(table_of(a)) == CommandInfo::extract(table_of(b)),
{
    lemma_order_is_of_no_account(a, b);
}

/// An entry under a name that is not recognised changes nothing: each
/// record is read from the table with it as it is read from the table
/// without it.
pub proof fn lemma_unknown_entries_are_ignored(
    table: Map<Seq<u8>, Seq<u8>>,
    key: Seq<u8>,
    value: Seq<u8>,
)
    requires
        forall|known: Key| #[trigger] known.text() != key,
    ensures
        Settings::extract(table.insert(key, value)) == Settings::extract(table),
        UserInfo::extract(table.insert(key, value)) == UserInfo::extract(table),
        CommandInfo::extract(table.insert(key, value)) == CommandInfo::extract(table),
        Settings::extract(table.remove(key)) == Settings::extract(table),
        UserInfo::extract(table.remove(key)) == UserInfo::extract(table),
        CommandInfo::extract(table.remove(key)) == CommandInfo::extract(table),
{
    lemma_settings_reads_only_its_keys(table.insert(key, value), table);
    lemma_user_info_reads_only_its_keys(table.insert(key, value), table);
    lemma_command_info_reads_only_its_keys(table.insert(key, value), table);
    lemma_settings_reads_only_its_keys(table.remove(key), table);
    lemma_user_info_reads_only_its_keys(table.remove(key), table);
    lemma_command_info_reads_only_its_keys(table.remove(key), table);
}

/// A path written into an entry is read back byte for byte, provided no
/// later entry has the same key.
pub proof fn lemma_path_round_trip(entries: Seq<Seq<u8>>, at: int, key: Seq<u8>, path: Seq<u8>)
    requires
        is_key(key),
        0 <= at < entries.len(),
        entries[at] == entry(key, path),
        forall|j: int| at < j < entries.len() ==> entry_key(#[trigger] entries[j]) != key,
    ensures
        path_at(table_of(entries), key) == Ok::<Seq<u8>, ValueError>(path),
{
    lemma_entry_splits_back(key, path);
    lemma_last_entry_wins(entries, at);
}

/// A text written into an entry is read back character for character,
/// provided no later entry has the same key.
pub proof fn lemma_string_round_trip(
    entries: Seq<Seq<u8>>,
    at: int,
    key: Seq<u8>,
    text: Seq<char>,
)
    requires
        is_key(key),
        0 <= at < entries.len(),
        entries[at] == entry(key, encode_utf8(text)),
        forall|j: int| at < j < entries.len() ==> entry_key(#[trigger] entries[j]) != key,
    ensures
        string_at(table_of(entries), key) == Ok::<Seq<char>, ValueError>(text),
{
    lemma_entry_splits_back(key, encode_utf8(text));
    lemma_last_entry_wins(entries, at);
    encode_utf8_valid_utf8(text);
    encode_utf8_decode_utf8(text);
}

/// A number written into an entry in decimal is read back as the same
/// number, provided no later entry has the same key.
pub proof fn lemma_number_round_trip(entries: Seq<Seq<u8>>, at: int, key: Seq<u8>, number: u64)
    requires
        is_key(key),
        0 <= at < entries.len(),
        entries[at] == entry(key, decimal_digits(number as nat)),
        forall|j: int| at < j < entries.len() ==> entry_key(#[trigger] entries[j]) != key,
    ensures
        u64_at(table_of(entries), key) == Ok::<u64, ValueError>(number),
        number <= u32::MAX ==> u32_at(table_of(entries), key) == Ok::<
            u32,
            ValueError,
        >(number as u32),
{
    lemma_entry_splits_back(key, decimal_digits(number as nat));
    lemma_last_entry_wins(entries, at);
    lemma_decimal_round_trip(number as nat);
}

/// The text that writes a truth value.
pub open spec fn flag_text(on: bool) -> Seq<u8> {
    if on {
        "true".spec_bytes()
    } else {
        "false".spec_bytes()
    }
}

/// A truth value written into an entry is read back as the same truth
/// value, provided no later entry has the same key.
pub proof fn lemma_flag_round_trip(entries: Seq<Seq<u8>>, at: int, key: Seq<u8>, on: bool)
    requires
        is_key(key),
        0 <= at < entries.len(),
        entries[at] == entry(key, flag_text(on)),
        forall|j: int| at < j < entries.len() ==> entry_key(#[trigger] entries[j]) != key,
    ensures
        flag_at(table_of(entries), key) == Ok::<bool, ValueError>(on),
{
    lemma_entry_splits_back(key, flag_text(on));
    lemma_last_entry_wins(entries, at);
    reveal_strlit("true");
    reveal_strlit("false");
    is_ascii_spec_bytes("true");
    is_ascii_spec_bytes("false");
}

} // verus!
