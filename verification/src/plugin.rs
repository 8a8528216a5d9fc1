//! Everything known about one authorization request, and the facts that
//! are worked out from it.
//!
//! A `Plugin` is put together once, when the host opens the plugin for a
//! request, and is only read from then on.

use libc::{c_uint, gid_t};
use std::collections::HashSet;
use vstd::prelude::*;
use vstd::string::*;
use vstd::utf8::encode_utf8;

use crate::command_info::{CommandInfo, CommandInfoView};
use crate::errors::{Error, ErrorKind};
use crate::keys::Key;
use crate::option_map::{table_of, OptionMap};
use crate::settings::{Settings, SettingsView};
use crate::text::{append_bytes, copy_bytes, rows, SPACE};
use crate::user_info::{lemma_user_info_missing_key, UserInfo, UserInfoView};
use crate::version::{negotiate, Version};

verus! {

/// The directory the command will run in: the one the policy sets, or
/// failing that the one the user invoked the command from.
pub open spec fn effective_cwd(user: UserInfoView, command: CommandInfoView) -> Seq<u8> {
    match command.cwd {
        Some(dir) => dir,
        None => user.cwd,
    }
}

/// The groups that the command's groups start from.
///
/// When groups are preserved these are the invoking user's, whatever else
/// the policy names. Otherwise they are the ones the policy names; and
/// when it names none, the invoking user's again.
pub open spec fn base_groups(user: UserInfoView, command: CommandInfoView) -> Seq<gid_t> {
    if command.preserve_groups {
        user.groups
    } else {
        match command.runas_groups {
            Some(groups) => groups,
            None => user.groups,
        }
    }
}

/// The groups the command will have the privileges of: the groups it
/// starts from, together with its effective group.
pub open spec fn effective_groups(user: UserInfoView, command: CommandInfoView) -> Set<gid_t> {
    base_groups(user, command).to_set().insert(command.runas_egid)
}

/// The words of a list, each with a blank before it.
pub open spec fn spaced(words: Seq<Seq<u8>>) -> Seq<u8>
    decreases words.len(),
{
    if words.len() == 0 {
        Seq::empty()
    } else {
        spaced(words.drop_last()) + seq![SPACE] + words.last()
    }
}

/// The command line as it was probably typed: the program's name, its
/// flags, then the command and its arguments, with blanks between.
pub open spec fn invocation_of(settings: SettingsView, command: Seq<Seq<u8>>) -> Seq<u8> {
    encode_utf8(settings.progname) + spaced(settings.flags()) + spaced(command)
}

/// Why a request is turned away at the door, if it is.
///
/// The version is settled first, and nothing else is looked at when it
/// falls short. After that the settings, the user table and the command
/// table are read in that order, and the first that is at fault decides.
pub open spec fn refusal(
    version: c_uint,
    settings: Seq<Seq<u8>>,
    user_info: Seq<Seq<u8>>,
    command_info: Seq<Seq<u8>>,
) -> Option<ErrorKind> {
    if !Version::decode(version).at_least(Version::spec_minimum()) {
        Some(ErrorKind::UnsupportedApiVersion(Version::spec_minimum()))
    } else if Settings::extract(table_of(settings)) is Err {
        Some(Settings::extract(table_of(settings))->Err_0)
    } else if UserInfo::extract(table_of(user_info)) is Err {
        Some(UserInfo::extract(table_of(user_info))->Err_0)
    } else if CommandInfo::extract(table_of(command_info)) is Err {
        Some(CommandInfo::extract(table_of(command_info))->Err_0)
    } else {
        None
    }
}

/// A request goes ahead only when the host's version will do and all
/// three tables can be read; when the version will not do, that alone is
/// the reason, whatever the tables hold.
pub proof fn lemma_refusal_is_fail_closed(
    version: c_uint,
    settings: Seq<Seq<u8>>,
    user_info: Seq<Seq<u8>>,
    command_info: Seq<Seq<u8>>,
)
    ensures
        refusal(version, settings, user_info, command_info) is None <==> {
            &&& Version::decode(version).at_least(Version::spec_minimum())
            &&& Settings::extract(table_of(settings)) is Ok
            &&& UserInfo::extract(table_of(user_info)) is Ok
            &&& CommandInfo::extract(table_of(command_info)) is Ok
        },
        !Version::decode(version).at_least(Version::spec_minimum()) ==> refusal(
            version,
            settings,
            user_info,
            command_info,
        ) == Some(ErrorKind::UnsupportedApiVersion(Version::spec_minimum())),
{
}

/// A request whose user table lacks a required entry never goes ahead.
pub proof fn lemma_missing_user_key_halts(
    version: c_uint,
    settings: Seq<Seq<u8>>,
    user_info: Seq<Seq<u8>>,
    command_info: Seq<Seq<u8>>,
    key: Key,
)
    requires
        UserInfo::requires_key(key),
        !table_of(user_info).contains_key(key.text()),
    ensures
        refusal(version, settings, user_info, command_info) is Some,
{
    lemma_user_info_missing_key(table_of(user_info), key);
}

/// The groups of the command hold its effective group, whether groups are
/// preserved or not and whether the policy names groups or not.
pub proof fn lemma_effective_group_is_a_member(user: UserInfoView, command: CommandInfoView)
    ensures
        effective_groups(user, command).contains(command.runas_egid),
        forall|gid: gid_t|
            base_groups(user, command).contains(gid) ==> effective_groups(user, command).contains(
                gid,
            ),
{
}

/// The directory the command runs in is the policy's whenever the policy
/// sets one, and the invoking user's whenever it does not.
pub proof fn lemma_effective_cwd(user: UserInfoView, command: CommandInfoView)
    ensures
        command.cwd is Some ==> Some(effective_cwd(user, command)) == command.cwd,
        command.cwd is None ==> effective_cwd(user, command) == user.cwd,
{
}

/// Appends each word of the list to `out`, a blank before each.
fn append_spaced(out: &mut Vec<u8>, words: &Vec<Vec<u8>>)
    ensures
        final(out)@ == old(out)@ + spaced(rows(words@)),
{
    let mut i: usize = 0;
    while i < words.len()
        invariant
            0 <= i <= words.len(),
            out@ == old(out)@ + spaced(rows(words@).take(i as int)),
        decreases words.len() - i,
    {
        out.push(SPACE);
        append_bytes(out, words[i].as_slice());
        assert(rows(words@).take(i + 1).drop_last() =~= rows(words@).take(i as int));
        i += 1;
    }
    assert(rows(words@).take(i as int) =~= rows(words@));
}

/// One authorization request, as the host described it.
#[derive(Debug)]
pub struct Plugin {
    /// The name of the plugin.
    pub plugin_name: String,
    /// The version of the plugin.
    pub plugin_version: Option<String>,
    /// The API version the host speaks.
    pub version: Version,
    /// The command to be run and its arguments.
    pub command: Vec<Vec<u8>>,
    /// How the host program was invoked.
    pub settings: Settings,
    /// Who invoked it.
    pub user_info: UserInfo,
    /// Whom the command will run as.
    pub command_info: CommandInfo,
    /// The invoking user's environment.
    pub user_env: OptionMap,
    /// The options given to the plugin in the host's configuration.
    pub plugin_options: OptionMap,
}

impl Plugin {
    /// Puts a request together from what the host handed over when it
    /// opened the plugin.
    ///
    /// The request is turned away exactly when `refusal` gives a reason,
    /// and then with that reason. Otherwise every part of it is read from
    /// the list it belongs to.
    pub fn new(
        plugin_name: String,
        plugin_version: Option<String>,
        version: c_uint,
        argv: Vec<Vec<u8>>,
        settings: &Vec<Vec<u8>>,
        user_info: &Vec<Vec<u8>>,
        command_info: &Vec<Vec<u8>>,
        user_env: &Vec<Vec<u8>>,
        plugin_options: &Vec<Vec<u8>>,
    ) -> (r: Result<Plugin, Error>)
        ensures
            match r {
                Ok(plugin) => {
                    &&& refusal(version, rows(settings@), rows(user_info@), rows(command_info@))
                        is None
                    &&& plugin.plugin_name == plugin_name
                    &&& plugin.plugin_version == plugin_version
                    &&& plugin.version == Version::decode(version)
                    &&& plugin.command == argv
                    &&& Settings::extract(table_of(rows(settings@))) == Ok::<
                        SettingsView,
                        ErrorKind,
                    >(plugin.settings@)
                    &&& UserInfo::extract(table_of(rows(user_info@))) == Ok::<
                        UserInfoView,
                        ErrorKind,
                    >(plugin.user_info@)
                    &&& CommandInfo::extract(table_of(rows(command_info@))) == Ok::<
                        CommandInfoView,
                        ErrorKind,
                    >(plugin.command_info@)
                    &&& plugin.user_env@ == table_of(rows(user_env@))
                    &&& plugin.plugin_options@ == table_of(rows(plugin_options@))
                },
                Err(e) => refusal(
                    version,
                    rows(settings@),
                    rows(user_info@),
                    rows(command_info@),
                ) == Some(e.kind) && e.chain@.len() == 0,
            },
    {
        let version = match negotiate(version) {
            Ok(version) => version,
            Err(e) => return Err(e),
        };
        let settings = match Settings::try_from(&OptionMap::from_entries(settings)) {
            Ok(settings) => settings,
            Err(e) => return Err(e),
        };
        let user_info = match UserInfo::try_from(&OptionMap::from_entries(user_info)) {
            Ok(user_info) => user_info,
            Err(e) => return Err(e),
        };
        let command_info = match CommandInfo::try_from(&OptionMap::from_entries(command_info)) {
            Ok(command_info) => command_info,
            Err(e) => return Err(e),
        };
        Ok(
            Plugin {
                plugin_name,
                plugin_version,
                version,
                command: argv,
                settings,
                user_info,
                command_info,
                user_env: OptionMap::from_entries(user_env),
                plugin_options: OptionMap::from_entries(plugin_options),
            },
        )
    }

    /// As best as can be told, what was typed at the shell to launch this
    /// request: the program's name, its flags, then the command and its
    /// arguments, with blanks between. Nothing is quoted.
    pub fn invocation(&self) -> (line: Vec<u8>)
        ensures
            line@ == invocation_of(self.settings@, rows(self.command@)),
    {
        let mut line = copy_bytes(self.settings.progname.as_str().as_bytes());
        let flags = self.settings.flags();
        append_spaced(&mut line, &flags);
        append_spaced(&mut line, &self.command);
        line
    }

    /// The directory the command will run in: the one the policy sets, or
    /// failing that the one the user invoked the command from. There
    /// always is one.
    pub fn cwd(&self) -> (dir: &Vec<u8>)
        ensures
            dir@ == effective_cwd(self.user_info@, self.command_info@),
            self.command_info@.cwd is Some ==> Some(dir@) == self.command_info@.cwd,
            self.command_info@.cwd is None ==> dir@ == self.user_info@.cwd,
    {
        match &self.command_info.cwd {
            Some(dir) => dir,
            None => self.user_info.cwd(),
        }
    }

    /// The groups the command will have the privileges of.
    ///
    /// These are the invoking user's groups when groups are preserved or
    /// when the policy names none, and the groups the policy names
    /// otherwise; in every case together with the effective group the
    /// command runs as.
    pub fn runas_gids(&self) -> (gids: HashSet<gid_t>)
        ensures
            gids@ == effective_groups(self.user_info@, self.command_info@),
            gids@.contains(self.command_info@.runas_egid),
    {
        broadcast use vstd::std_specs::hash::group_hash_axioms;

        let base: &Vec<gid_t> = if self.command_info.preserve_groups {
            self.user_info.groups()
        } else {
            match &self.command_info.runas_groups {
                Some(groups) => groups,
                None => self.user_info.groups(),
            }
        };
        let mut gids: HashSet<gid_t> = HashSet::new();
        let mut i: usize = 0;
        while i < base.len()
            invariant
                0 <= i <= base.len(),
                gids@ == base@.take(i as int).to_set(),
            decreases base.len() - i,
        {
            gids.insert(base[i]);
            proof {
                base@.take(i as int).lemma_push_to_set_commute(base@[i as int]);
                assert(base@.take(i + 1) =~= base@.take(i as int).push(base@[i as int]));
            }
            i += 1;
        }
        assert(base@.take(i as int) =~= base@);
        gids.insert(self.command_info.runas_egid);
        gids
    }
}

} // verus!
