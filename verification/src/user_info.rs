//! Who is asking: the identity of the invoking user.

use libc::{gid_t, uid_t};
use vstd::prelude::*;
use vstd::string::*;

use crate::errors::{Error, ErrorKind};
use crate::fields::{bytes_of, fails_required, given, optional, required};
use crate::keys::Key;
use crate::option_map::{
    agree_on, id_list_at, lemma_same_reading, path_at, u32_at, OptionMap,
};
use crate::text::lemma_id_list_nonempty;

verus! {

/// What a `UserInfo` holds.
pub struct UserInfoView {
    /// The invoking user's id.
    pub uid: uid_t,
    /// The invoking user's primary group id.
    pub gid: gid_t,
    /// The ids of all the groups the invoking user belongs to.
    pub groups: Seq<gid_t>,
    /// The directory the user invoked the command from.
    pub cwd: Seq<u8>,
    /// The path of the user's terminal, if there is one.
    pub tty: Option<Seq<u8>>,
}

/// The identity of the invoking user. The working directory is always
/// there, and the list of groups is never empty.
#[derive(Debug)]
pub struct UserInfo {
    uid: uid_t,
    gid: gid_t,
    groups: Vec<gid_t>,
    cwd: Vec<u8>,
    tty: Option<Vec<u8>>,
}

impl View for UserInfo {
    type V = UserInfoView;

    closed spec fn view(&self) -> UserInfoView {
        UserInfoView {
            uid: self.uid,
            gid: self.gid,
            groups: self.groups@,
            cwd: self.cwd@,
            tty: bytes_of(self.tty),
        }
    }
}

impl UserInfo {
    #[verifier::type_invariant]
    spec fn well_formed(self) -> bool {
        self.groups@.len() >= 1
    }

    /// Whether the user table must hold an entry under `key`.
    pub open spec fn requires_key(key: Key) -> bool {
        key == Key::Uid || key == Key::Gid || key == Key::Groups || key == Key::Cwd
    }

    /// The first entry, in the order uid, gid, groups, cwd, that is missing
    /// or misshapen. The terminal path is optional and any bytes make a
    /// path, so it is never at fault.
    pub open spec fn defect(table: Map<Seq<u8>, Seq<u8>>) -> Option<Key> {
        if fails_required(u32_at(table, Key::Uid.text())) {
            Some(Key::Uid)
        } else if fails_required(u32_at(table, Key::Gid.text())) {
            Some(Key::Gid)
        } else if fails_required(id_list_at(table, Key::Groups.text())) {
            Some(Key::Groups)
        } else if fails_required(path_at(table, Key::Cwd.text())) {
            Some(Key::Cwd)
        } else {
            None
        }
    }

    /// What reading a user table gives: the record, or `InvalidInput`
    /// naming the first entry at fault.
    pub open spec fn extract(table: Map<Seq<u8>, Seq<u8>>) -> Result<UserInfoView, ErrorKind> {
        match Self::defect(table) {
            Some(key) => Err(ErrorKind::InvalidInput(key)),
            None => Ok(
                UserInfoView {
                    uid: u32_at(table, Key::Uid.text())->Ok_0,
                    gid: u32_at(table, Key::Gid.text())->Ok_0,
                    groups: id_list_at(table, Key::Groups.text())->Ok_0,
                    cwd: path_at(table, Key::Cwd.text())->Ok_0,
                    tty: given(path_at(table, Key::Tty.text())),
                },
            ),
        }
    }

    /// Reads the invoking user's identity from the user table.
    ///
    /// The user id, group id, list of groups and working directory are
    /// required; the terminal path is optional. Entries under other keys
    /// are ignored.
    pub fn try_from(table: &OptionMap) -> (r: Result<UserInfo, Error>)
        ensures
            match r {
                Ok(info) => UserInfo::extract(table@) == Ok::<UserInfoView, ErrorKind>(info@),
                Err(e) => UserInfo::extract(table@) == Err::<UserInfoView, ErrorKind>(e.kind)
                    && e.chain@.len() == 0,
            },
    {
        let uid: uid_t = match required(table.get_u32(Key::Uid.name()), Key::Uid) {
            Ok(value) => value,
            Err(e) => return Err(e),
        };
        let gid: gid_t = match required(table.get_u32(Key::Gid.name()), Key::Gid) {
            Ok(value) => value,
            Err(e) => return Err(e),
        };
        let groups = match required(table.get_id_list(Key::Groups.name()), Key::Groups) {
            Ok(value) => value,
            Err(e) => return Err(e),
        };
        let cwd = match required(table.get_path(Key::Cwd.name()), Key::Cwd) {
            Ok(value) => value,
            Err(e) => return Err(e),
        };
        let tty = match optional(table.get_path(Key::Tty.name()), Key::Tty) {
            Ok(value) => value,
            Err(e) => return Err(e),
        };
        proof {
            lemma_id_list_nonempty(table@[Key::Groups.text()]);
        }
        Ok(UserInfo { uid, gid, groups, cwd, tty })
    }

    /// The invoking user's id.
    pub fn uid(&self) -> (uid: uid_t)
        ensures
            uid == self@.uid,
    {
        self.uid
    }

    /// The invoking user's primary group id.
    pub fn gid(&self) -> (gid: gid_t)
        ensures
            gid == self@.gid,
    {
        self.gid
    }

    /// The ids of all the groups the invoking user belongs to. There is
    /// always at least one.
    pub fn groups(&self) -> (groups: &Vec<gid_t>)
        ensures
            groups@ == self@.groups,
            groups@.len() >= 1,
    {
        proof {
            use_type_invariant(self);
        }
        &self.groups
    }

    /// The directory the user invoked the command from.
    pub fn cwd(&self) -> (cwd: &Vec<u8>)
        ensures
            cwd@ == self@.cwd,
    {
        &self.cwd
    }

    /// The path of the user's terminal, if there is one.
    pub fn tty(&self) -> (tty: Option<&Vec<u8>>)
        ensures
            match tty {
                Some(path) => self@.tty == Some(path@),
                None => self@.tty is None,
            },
    {
        match &self.tty {
            Some(path) => Some(path),
            None => None,
        }
    }
}

/// A user table that lacks a required entry is refused, with
/// `InvalidInput`.
pub proof fn lemma_user_info_missing_key(table: Map<Seq<u8>, Seq<u8>>, key: Key)
    requires
        UserInfo::requires_key(key),
        !table.contains_key(key.text()),
    ensures
        UserInfo::extract(table) is Err,
        UserInfo::extract(table)->Err_0 is InvalidInput,
{
}

/// Reading a user table looks at nothing but the entries under the keys
/// of the record: two tables that agree on those are read alike, whatever
/// else they hold.
pub proof fn lemma_user_info_reads_only_its_keys(
    a: Map<Seq<u8>, Seq<u8>>,
    b: Map<Seq<u8>, Seq<u8>>,
)
    requires
        forall|key: Key| agree_on(a, b, #[trigger] key.text()),
    ensures
        UserInfo::extract(a) == UserInfo::extract(b),
{
    lemma_same_reading(a, b, Key::Uid.text());
    lemma_same_reading(a, b, Key::Gid.text());
    lemma_same_reading(a, b, Key::Groups.text());
    lemma_same_reading(a, b, Key::Cwd.text());
    lemma_same_reading(a, b, Key::Tty.text());
}

} // verus!
