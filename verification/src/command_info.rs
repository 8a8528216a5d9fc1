//! Whom the command will run as: the identity that the policy resolved.

use libc::{gid_t, uid_t};
use vstd::prelude::*;
use vstd::string::*;

use crate::errors::{Error, ErrorKind};
use crate::fields::{
    bytes_of, fails_optional, fails_required, given, given_or, ids_of, optional, required,
};
use crate::keys::Key;
use crate::option_map::{
    agree_on, flag_at, id_list_at, lemma_same_reading, path_at, u32_at, OptionMap,
};

verus! {

/// What a `CommandInfo` holds.
pub struct CommandInfoView {
    pub runas_uid: uid_t,
    pub runas_gid: gid_t,
    pub runas_euid: uid_t,
    pub runas_egid: gid_t,
    pub runas_groups: Option<Seq<gid_t>>,
    pub preserve_groups: bool,
    pub cwd: Option<Seq<u8>>,
}

/// The identity the command will run as.
///
/// When the invoking user's groups are to be preserved, the policy names
/// no groups of its own, so `preserve_groups` and `runas_groups` are not
/// expected together. Nothing here depends on that: a record that has both,
/// or neither, is still a record.
#[derive(Clone, Debug, PartialEq, Eq)]
pub struct CommandInfo {
    /// The user id the command will run as.
    pub runas_uid: uid_t,
    /// The group id the command will run as.
    pub runas_gid: gid_t,
    /// The effective user id the command will run as.
    pub runas_euid: uid_t,
    /// The effective group id the command will run as.
    pub runas_egid: gid_t,
    /// The groups the command will run with, when the policy names them.
    pub runas_groups: Option<Vec<gid_t>>,
    /// Whether the command keeps the groups of the invoking user.
    pub preserve_groups: bool,
    /// The directory the command will run in, when it is not the one it
    /// was invoked from.
    pub cwd: Option<Vec<u8>>,
}

impl View for CommandInfo {
    type V = CommandInfoView;

    open spec fn view(&self) -> CommandInfoView {
        CommandInfoView {
            runas_uid: self.runas_uid,
            runas_gid: self.runas_gid,
            runas_euid: self.runas_euid,
            runas_egid: self.runas_egid,
            runas_groups: ids_of(self.runas_groups),
            preserve_groups: self.preserve_groups,
            cwd: bytes_of(self.cwd),
        }
    }
}

impl CommandInfo {
    /// Whether the command table must hold an entry under `key`.
    pub open spec fn requires_key(key: Key) -> bool {
        key == Key::RunasUid || key == Key::RunasGid
    }

    /// The first entry, in the order runas_uid, runas_gid, runas_euid,
    /// runas_egid, runas_groups, preserve_groups, that is misshapen, or
    /// that is missing though required. The directory is optional and any
    /// bytes make a path, so it is never at fault.
    pub open spec fn defect(table: Map<Seq<u8>, Seq<u8>>) -> Option<Key> {
        if fails_required(u32_at(table, Key::RunasUid.text())) {
            Some(Key::RunasUid)
        } else if fails_required(u32_at(table, Key::RunasGid.text())) {
            Some(Key::RunasGid)
        } else if fails_optional(u32_at(table, Key::RunasEuid.text())) {
            Some(Key::RunasEuid)
        } else if fails_optional(u32_at(table, Key::RunasEgid.text())) {
            Some(Key::RunasEgid)
        } else if fails_optional(id_list_at(table, Key::RunasGroups.text())) {
            Some(Key::RunasGroups)
        } else if fails_optional(flag_at(table, Key::PreserveGroups.text())) {
            Some(Key::PreserveGroups)
        } else {
            None
        }
    }

    /// What reading a command table gives: the record, or `InvalidInput`
    /// naming the first entry at fault.
    ///
    /// The effective ids are those given as such; where one is not given,
    /// it is the plain id of the same sort. Groups are preserved only
    /// when the table says so.
    pub open spec fn extract(table: Map<Seq<u8>, Seq<u8>>) -> Result<CommandInfoView, ErrorKind> {
        match Self::defect(table) {
            Some(key) => Err(ErrorKind::InvalidInput(key)),
            None => {
                let runas_uid = u32_at(table, Key::RunasUid.text())->Ok_0;
                let runas_gid = u32_at(table, Key::RunasGid.text())->Ok_0;
                Ok(
                    CommandInfoView {
                        runas_uid,
                        runas_gid,
                        runas_euid: given_or(u32_at(table, Key::RunasEuid.text()), runas_uid),
                        runas_egid: given_or(u32_at(table, Key::RunasEgid.text()), runas_gid),
                        runas_groups: given(id_list_at(table, Key::RunasGroups.text())),
                        preserve_groups: given_or(
                            flag_at(table, Key::PreserveGroups.text()),
                            false,
                        ),
                        cwd: given(path_at(table, Key::Cwd.text())),
                    },
                )
            },
        }
    }

    /// Reads the identity the command will run as from the command table.
    ///
    /// The user id and group id are required. The effective ids, the list
    /// of groups, the preserve-groups flag and the directory are optional.
    /// Entries under other keys are ignored.
    pub fn try_from(table: &OptionMap) -> (r: Result<CommandInfo, Error>)
        ensures
            match r {
                Ok(info) => CommandInfo::extract(table@) == Ok::<CommandInfoView, ErrorKind>(
                    info@,
                ),
                Err(e) => CommandInfo::extract(table@) == Err::<CommandInfoView, ErrorKind>(
                    e.kind,
                ) && e.chain@.len() == 0,
            },
    {
        let runas_uid: uid_t = match required(table.get_u32(Key::RunasUid.name()), Key::RunasUid) {
            Ok(value) => value,
            Err(e) => return Err(e),
        };
        let runas_gid: gid_t = match required(table.get_u32(Key::RunasGid.name()), Key::RunasGid) {
            Ok(value) => value,
            Err(e) => return Err(e),
        };
        let runas_euid: uid_t = match optional(
            table.get_u32(Key::RunasEuid.name()),
            Key::RunasEuid,
        ) {
            Ok(Some(value)) => value,
            Ok(None) => runas_uid,
            Err(e) => return Err(e),
        };
        let runas_egid: gid_t = match optional(
            table.get_u32(Key::RunasEgid.name()),
            Key::RunasEgid,
        ) {
            Ok(Some(value)) => value,
            Ok(None) => runas_gid,
            Err(e) => return Err(e),
        };
        let runas_groups = match optional(
            table.get_id_list(Key::RunasGroups.name()),
            Key::RunasGroups,
        ) {
            Ok(value) => value,
            Err(e) => return Err(e),
        };
        let preserve_groups = match optional(
            table.get_bool(Key::PreserveGroups.name()),
            Key::PreserveGroups,
        ) {
            Ok(Some(value)) => value,
            Ok(None) => false,
            Err(e) => return Err(e),
        };
        let cwd = match optional(table.get_path(Key::Cwd.name()), Key::Cwd) {
            Ok(value) => value,
            Err(e) => return Err(e),
        };
        Ok(
            CommandInfo {
                runas_uid,
                runas_gid,
                runas_euid,
                runas_egid,
                runas_groups,
                preserve_groups,
                cwd,
            },
        )
    }
}

/// A command table that lacks a required entry is refused, with
/// `InvalidInput`.
pub proof fn lemma_command_info_missing_key(table: Map<Seq<u8>, Seq<u8>>, key: Key)
    requires
        CommandInfo::requires_key(key),
        !table.contains_key(key.text()),
    ensures
        CommandInfo::extract(table) is Err,
        CommandInfo::extract(table)->Err_0 is InvalidInput,
{
}

/// Reading a command table looks at nothing but the entries under the keys
/// of the record: two tables that agree on those are read alike, whatever
/// else they hold.
pub proof fn lemma_command_info_reads_only_its_keys(
    a: Map<Seq<u8>, Seq<u8>>,
    b: Map<Seq<u8>, Seq<u8>>,
)
    requires
        forall|key: Key| agree_on(a, b, #[trigger] key.text()),
    ensures
        CommandInfo::extract(a) == CommandInfo::extract(b),
{
    lemma_same_reading(a, b, Key::RunasUid.text());
    lemma_same_reading(a, b, Key::RunasGid.text());
    lemma_same_reading(a, b, Key::RunasEuid.text());
    lemma_same_reading(a, b, Key::RunasEgid.text());
    lemma_same_reading(a, b, Key::RunasGroups.text());
    lemma_same_reading(a, b, Key::PreserveGroups.text());
    lemma_same_reading(a, b, Key::Cwd.text());
}

} // verus!
