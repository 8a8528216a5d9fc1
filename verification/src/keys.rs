//! The option names this library recognises in the tables it is handed.

use vstd::prelude::*;
use vstd::string::*;

use crate::option_map::is_key;

verus! {

/// A recognised option name.
///
/// Names are shared between tables: `Cwd` is the invoking user's directory
/// in the user table and the override in the command table, and
/// `PreserveGroups` appears both among the settings and in the command
/// table.
#[derive(Clone, Copy, Debug, PartialEq, Eq, Structural)]
pub enum Key {
    Progname,
    Sudoedit,
    RunasUser,
    RunasGroup,
    Prompt,
    LoginShell,
    RunShell,
    SetHome,
    PreserveEnvironment,
    PreserveGroups,
    IgnoreTicket,
    Noninteractive,
    LoginClass,
    SelinuxRole,
    SelinuxType,
    BsdAuthType,
    Closefrom,
    Uid,
    Gid,
    Groups,
    Cwd,
    Tty,
    RunasUid,
    RunasGid,
    RunasEuid,
    RunasEgid,
    RunasGroups,
}

impl Key {
    /// The name as the host spells it.
    pub open spec fn spec_name(self) -> &'static str {
        match self {
            Key::Progname => "progname",
            Key::Sudoedit => "sudoedit",
            Key::RunasUser => "runas_user",
            Key::RunasGroup => "runas_group",
            Key::Prompt => "prompt",
            Key::LoginShell => "login_shell",
            Key::RunShell => "run_shell",
            Key::SetHome => "set_home",
            Key::PreserveEnvironment => "preserve_environment",
            Key::PreserveGroups => "preserve_groups",
            Key::IgnoreTicket => "ignore_ticket",
            Key::Noninteractive => "noninteractive",
            Key::LoginClass => "login_class",
            Key::SelinuxRole => "selinux_role",
            Key::SelinuxType => "selinux_type",
            Key::BsdAuthType => "bsd_auth_type",
            Key::Closefrom => "closefrom",
            Key::Uid => "uid",
            Key::Gid => "gid",
            Key::Groups => "groups",
            Key::Cwd => "cwd",
            Key::Tty => "tty",
            Key::RunasUid => "runas_uid",
            Key::RunasGid => "runas_gid",
            Key::RunasEuid => "runas_euid",
            Key::RunasEgid => "runas_egid",
            Key::RunasGroups => "runas_groups",
        }
    }

    /// The bytes under which the option is looked up in a table.
    pub open spec fn text(self) -> Seq<u8> {
        self.spec_name().spec_bytes()
    }

    /// The name as the host spells it.
    #[verifier::when_used_as_spec(spec_name)]
    pub fn name(self) -> (name: &'static str)
        ensures
            name == self.spec_name(),
    {
        match self {
            Key::Progname => "progname",
            Key::Sudoedit => "sudoedit",
            Key::RunasUser => "runas_user",
            Key::RunasGroup => "runas_group",
            Key::Prompt => "prompt",
            Key::LoginShell => "login_shell",
            Key::RunShell => "run_shell",
            Key::SetHome => "set_home",
            Key::PreserveEnvironment => "preserve_environment",
            Key::PreserveGroups => "preserve_groups",
            Key::IgnoreTicket => "ignore_ticket",
            Key::Noninteractive => "noninteractive",
            Key::LoginClass => "login_class",
            Key::SelinuxRole => "selinux_role",
            Key::SelinuxType => "selinux_type",
            Key::BsdAuthType => "bsd_auth_type",
            Key::Closefrom => "closefrom",
            Key::Uid => "uid",
            Key::Gid => "gid",
            Key::Groups => "groups",
            Key::Cwd => "cwd",
            Key::Tty => "tty",
            Key::RunasUid => "runas_uid",
            Key::RunasGid => "runas_gid",
            Key::RunasEuid => "runas_euid",
            Key::RunasEgid => "runas_egid",
            Key::RunasGroups => "runas_groups",
        }
    }
}

/// Every recognised name is plain ASCII without `=`, so that it stands as
/// a key in a raw entry and is found again under the same bytes.
pub proof fn lemma_names_are_keys(key: Key)
    ensures
        is_ascii(key.spec_name()),
        is_key(key.text()),
        key.text().len() == key.spec_name()@.len(),
        key.text().len() > 0,
{
    match key {
        Key::Progname => reveal_strlit("progname"),
        Key::Sudoedit => reveal_strlit("sudoedit"),
        Key::RunasUser => reveal_strlit("runas_user"),
        Key::RunasGroup => reveal_strlit("runas_group"),
        Key::Prompt => reveal_strlit("prompt"),
        Key::LoginShell => reveal_strlit("login_shell"),
        Key::RunShell => reveal_strlit("run_shell"),
        Key::SetHome => reveal_strlit("set_home"),
        Key::PreserveEnvironment => reveal_strlit("preserve_environment"),
        Key::PreserveGroups => reveal_strlit("preserve_groups"),
        Key::IgnoreTicket => reveal_strlit("ignore_ticket"),
        Key::Noninteractive => reveal_strlit("noninteractive"),
        Key::LoginClass => reveal_strlit("login_class"),
        Key::SelinuxRole => reveal_strlit("selinux_role"),
        Key::SelinuxType => reveal_strlit("selinux_type"),
        Key::BsdAuthType => reveal_strlit("bsd_auth_type"),
        Key::Closefrom => reveal_strlit("closefrom"),
        Key::Uid => reveal_strlit("uid"),
        Key::Gid => reveal_strlit("gid"),
        Key::Groups => reveal_strlit("groups"),
        Key::Cwd => reveal_strlit("cwd"),
        Key::Tty => reveal_strlit("tty"),
        Key::RunasUid => reveal_strlit("runas_uid"),
        Key::RunasGid => reveal_strlit("runas_gid"),
        Key::RunasEuid => reveal_strlit("runas_euid"),
        Key::RunasEgid => reveal_strlit("runas_egid"),
        Key::RunasGroups => reveal_strlit("runas_groups"),
    }
    is_ascii_spec_bytes(key.spec_name());
}

} // verus!
