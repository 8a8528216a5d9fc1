//! How the gatekeeper itself was invoked: the name it ran under and the
//! flags it was given.

use vstd::prelude::*;
use vstd::string::*;
use vstd::utf8::encode_utf8;

use crate::errors::{Error, ErrorKind};
use crate::fields::{chars_of, fails_optional, fails_required, given, given_or, optional, required};
use crate::keys::Key;
use crate::option_map::{
    agree_on, flag_at, lemma_same_reading, string_at, u64_at, OptionMap,
};
use crate::text::{append_bytes, bytes_eq, copy_bytes, decimal_digits, render_decimal, rows};

verus! {

/// The flag `name`, listed when it was given.
pub open spec fn switch(on: bool, name: &str) -> Seq<Seq<u8>> {
    if on {
        seq![name.spec_bytes()]
    } else {
        Seq::empty()
    }
}

/// The flag `name` followed by its text, listed when it was given one.
pub open spec fn valued(value: Option<Seq<char>>, name: &str) -> Seq<Seq<u8>> {
    match value {
        Some(text) => seq![name.spec_bytes() + encode_utf8(text)],
        None => Seq::empty(),
    }
}

/// The flag `name` followed by its number in decimal, listed when it was
/// given one.
pub open spec fn numbered(value: Option<u64>, name: &str) -> Seq<Seq<u8>> {
    match value {
        Some(number) => seq![name.spec_bytes() + decimal_digits(number as nat)],
        None => Seq::empty(),
    }
}

/// What a `Settings` holds.
pub struct SettingsView {
    pub progname: Seq<char>,
    pub sudoedit: bool,
    pub runas_user: Option<Seq<char>>,
    pub runas_group: Option<Seq<char>>,
    pub prompt: Option<Seq<char>>,
    pub login_shell: bool,
    pub run_shell: bool,
    pub set_home: bool,
    pub preserve_environment: bool,
    pub preserve_groups: bool,
    pub ignore_ticket: bool,
    pub noninteractive: bool,
    pub login_class: Option<Seq<char>>,
    pub selinux_role: Option<Seq<char>>,
    pub selinux_type: Option<Seq<char>>,
    pub bsd_auth_type: Option<Seq<char>>,
    pub close_from: Option<u64>,
}

impl SettingsView {
    /// The flags the program was given, as they would be typed, in a fixed
    /// order.
    ///
    /// Editing is listed as a flag only when the program did not run under
    /// the name `sudoedit`, which asks for editing without any flag.
    pub open spec fn flags(self) -> Seq<Seq<u8>> {
        Seq::<Seq<u8>>::empty() + switch(
            self.sudoedit && encode_utf8(self.progname) != "sudoedit".spec_bytes(),
            "--edit",
        ) + valued(self.runas_user, "--user ") + valued(self.runas_group, "--group ") + valued(
            self.prompt,
            "--prompt ",
        ) + switch(self.login_shell, "--login") + switch(self.run_shell, "--shell") + switch(
            self.set_home,
            "--set-home",
        ) + switch(self.preserve_environment, "--preserve-env") + switch(
            self.preserve_groups,
            "--preserve-groups",
        ) + switch(self.ignore_ticket, "--reset-timestamp") + switch(
            self.noninteractive,
            "--non-interactive",
        ) + valued(self.login_class, "--login-class ") + valued(self.selinux_role, "--role ")
            + valued(self.selinux_type, "--type ") + valued(self.bsd_auth_type, "--auth-type ")
            + numbered(self.close_from, "--close-from ")
    }
}

/// How the program was invoked. The name it ran under is always there.
#[derive(Clone, Debug, PartialEq, Eq)]
pub struct Settings {
    /// The name the program ran under.
    pub progname: String,
    /// Whether files are to be edited rather than a command run.
    pub sudoedit: bool,
    /// The user to run as, when one was named.
    pub runas_user: Option<String>,
    /// The group to run as, when one was named.
    pub runas_group: Option<String>,
    /// The password prompt, when one was given.
    pub prompt: Option<String>,
    /// Whether a login shell was asked for.
    pub login_shell: bool,
    /// Whether a shell was asked for.
    pub run_shell: bool,
    /// Whether the home directory is to be that of the target user.
    pub set_home: bool,
    /// Whether the environment is to be kept.
    pub preserve_environment: bool,
    /// Whether the invoking user's groups are to be kept.
    pub preserve_groups: bool,
    /// Whether cached credentials are to be passed over.
    pub ignore_ticket: bool,
    /// Whether the user must not be prompted.
    pub noninteractive: bool,
    /// The login class, when one was named.
    pub login_class: Option<String>,
    /// The SELinux role, when one was named.
    pub selinux_role: Option<String>,
    /// The SELinux type, when one was named.
    pub selinux_type: Option<String>,
    /// The BSD authentication type, when one was named.
    pub bsd_auth_type: Option<String>,
    /// The first file descriptor to close, when one was given.
    pub close_from: Option<u64>,
}

impl View for Settings {
    type V = SettingsView;

    open spec fn view(&self) -> SettingsView {
        SettingsView {
            progname: self.progname@,
            sudoedit: self.sudoedit,
            runas_user: chars_of(self.runas_user),
            runas_group: chars_of(self.runas_group),
            prompt: chars_of(self.prompt),
            login_shell: self.login_shell,
            run_shell: self.run_shell,
            set_home: self.set_home,
            preserve_environment: self.preserve_environment,
            preserve_groups: self.preserve_groups,
            ignore_ticket: self.ignore_ticket,
            noninteractive: self.noninteractive,
            login_class: chars_of(self.login_class),
            selinux_role: chars_of(self.selinux_role),
            selinux_type: chars_of(self.selinux_type),
            bsd_auth_type: chars_of(self.bsd_auth_type),
            close_from: self.close_from,
        }
    }
}

/// Lists the flag `name` when it was given.
fn push_switch(out: &mut Vec<Vec<u8>>, on: bool, name: &str)
    ensures
        rows(final(out)@) == rows(old(out)@) + switch(on, name),
{
    if on {
        out.push(copy_bytes(name.as_bytes()));
    }
}

/// Lists the flag `name` with its text when it was given one.
fn push_valued(out: &mut Vec<Vec<u8>>, value: &Option<String>, name: &str)
    ensures
        rows(final(out)@) == rows(old(out)@) + valued(chars_of(*value), name),
{
    match value {
        Some(text) => {
            let mut flag = copy_bytes(name.as_bytes());
            append_bytes(&mut flag, text.as_str().as_bytes());
            out.push(flag);
        },
        None => {},
    }
}

/// Lists the flag `name` with its number when it was given one.
fn push_numbered(out: &mut Vec<Vec<u8>>, value: Option<u64>, name: &str)
    ensures
        rows(final(out)@) == rows(old(out)@) + numbered(value, name),
{
    match value {
        Some(number) => {
            let mut flag = copy_bytes(name.as_bytes());
            let digits = render_decimal(number);
            append_bytes(&mut flag, digits.as_slice());
            out.push(flag);
        },
        None => {},
    }
}

impl Settings {
    /// Whether the settings table must hold an entry under `key`.
    pub open spec fn requires_key(key: Key) -> bool {
        key == Key::Progname
    }

    /// The first entry, in the order of the record's fields, that is
    /// misshapen, or that is missing though required.
    pub open spec fn defect(table: Map<Seq<u8>, Seq<u8>>) -> Option<Key> {
        if fails_required(string_at(table, Key::Progname.text())) {
            Some(Key::Progname)
        } else if fails_optional(flag_at(table, Key::Sudoedit.text())) {
            Some(Key::Sudoedit)
        } else if fails_optional(string_at(table, Key::RunasUser.text())) {
            Some(Key::RunasUser)
        } else if fails_optional(string_at(table, Key::RunasGroup.text())) {
            Some(Key::RunasGroup)
        } else if fails_optional(string_at(table, Key::Prompt.text())) {
            Some(Key::Prompt)
        } else if fails_optional(flag_at(table, Key::LoginShell.text())) {
            Some(Key::LoginShell)
        } else if fails_optional(flag_at(table, Key::RunShell.text())) {
            Some(Key::RunShell)
        } else if fails_optional(flag_at(table, Key::SetHome.text())) {
            Some(Key::SetHome)
        } else if fails_optional(flag_at(table, Key::PreserveEnvironment.text())) {
            Some(Key::PreserveEnvironment)
        } else if fails_optional(flag_at(table, Key::PreserveGroups.text())) {
            Some(Key::PreserveGroups)
        } else if fails_optional(flag_at(table, Key::IgnoreTicket.text())) {
            Some(Key::IgnoreTicket)
        } else if fails_optional(flag_at(table, Key::Noninteractive.text())) {
            Some(Key::Noninteractive)
        } else if fails_optional(string_at(table, Key::LoginClass.text())) {
            Some(Key::LoginClass)
        } else if fails_optional(string_at(table, Key::SelinuxRole.text())) {
            Some(Key::SelinuxRole)
        } else if fails_optional(string_at(table, Key::SelinuxType.text())) {
            Some(Key::SelinuxType)
        } else if fails_optional(string_at(table, Key::BsdAuthType.text())) {
            Some(Key::BsdAuthType)
        } else if fails_optional(u64_at(table, Key::Closefrom.text())) {
            Some(Key::Closefrom)
        } else {
            None
        }
    }

    /// What reading a settings table gives: the record, or `InvalidInput`
    /// naming the first entry at fault. A flag that the table does not
    /// mention is off.
    pub open spec fn extract(table: Map<Seq<u8>, Seq<u8>>) -> Result<SettingsView, ErrorKind> {
        match Self::defect(table) {
            Some(key) => Err(ErrorKind::InvalidInput(key)),
            None => Ok(
                SettingsView {
                    progname: string_at(table, Key::Progname.text())->Ok_0,
                    sudoedit: given_or(flag_at(table, Key::Sudoedit.text()), false),
                    runas_user: given(string_at(table, Key::RunasUser.text())),
                    runas_group: given(string_at(table, Key::RunasGroup.text())),
                    prompt: given(string_at(table, Key::Prompt.text())),
                    login_shell: given_or(flag_at(table, Key::LoginShell.text()), false),
                    run_shell: given_or(flag_at(table, Key::RunShell.text()), false),
                    set_home: given_or(flag_at(table, Key::SetHome.text()), false),
                    preserve_environment: given_or(
                        flag_at(table, Key::PreserveEnvironment.text()),
                        false,
                    ),
                    preserve_groups: given_or(flag_at(table, Key::PreserveGroups.text()), false),
                    ignore_ticket: given_or(flag_at(table, Key::IgnoreTicket.text()), false),
                    noninteractive: given_or(flag_at(table, Key::Noninteractive.text()), false),
                    login_class: given(string_at(table, Key::LoginClass.text())),
                    selinux_role: given(string_at(table, Key::SelinuxRole.text())),
                    selinux_type: given(string_at(table, Key::SelinuxType.text())),
                    bsd_auth_type: given(string_at(table, Key::BsdAuthType.text())),
                    close_from: given(u64_at(table, Key::Closefrom.text())),
                },
            ),
        }
    }

    /// Reads an optional flag from the table; a flag that is not mentioned
    /// is off.
    fn flag(table: &OptionMap, key: Key) -> (r: Result<bool, Error>)
        ensures
            match r {
                Ok(on) => !fails_optional(flag_at(table@, key.text())) && on == given_or(
                    flag_at(table@, key.text()),
                    false,
                ),
                Err(e) => fails_optional(flag_at(table@, key.text())) && e.kind
                    == ErrorKind::InvalidInput(key) && e.chain@.len() == 0,
            },
    {
        match optional(table.get_bool(key.name()), key) {
            Ok(Some(on)) => Ok(on),
            Ok(None) => Ok(false),
            Err(e) => Err(e),
        }
    }

    /// Reads an optional text from the table.
    fn word(table: &OptionMap, key: Key) -> (r: Result<Option<String>, Error>)
        ensures
            match r {
                Ok(text) => !fails_optional(string_at(table@, key.text())) && chars_of(text)
                    == given(string_at(table@, key.text())),
                Err(e) => fails_optional(string_at(table@, key.text())) && e.kind
                    == ErrorKind::InvalidInput(key) && e.chain@.len() == 0,
            },
    {
        optional(table.get_string(key.name()), key)
    }

    /// Reads how the program was invoked from the settings table.
    ///
    /// The program name is required; every flag is optional. Entries under
    /// other keys are ignored.
    pub fn try_from(table: &OptionMap) -> (r: Result<Settings, Error>)
        ensures
            match r {
                Ok(settings) => Settings::extract(table@) == Ok::<SettingsView, ErrorKind>(
                    settings@,
                ),
                Err(e) => Settings::extract(table@) == Err::<SettingsView, ErrorKind>(e.kind)
                    && e.chain@.len() == 0,
            },
    {
        let progname = match required(table.get_string(Key::Progname.name()), Key::Progname) {
            Ok(value) => value,
            Err(e) => return Err(e),
        };
        let sudoedit = match Settings::flag(table, Key::Sudoedit) {
            Ok(value) => value,
            Err(e) => return Err(e),
        };
        let runas_user = match Settings::word(table, Key::RunasUser) {
            Ok(value) => value,
            Err(e) => return Err(e),
        };
        let runas_group = match Settings::word(table, Key::RunasGroup) {
            Ok(value) => value,
            Err(e) => return Err(e),
        };
        let prompt = match Settings::word(table, Key::Prompt) {
            Ok(value) => value,
            Err(e) => return Err(e),
        };
        let login_shell = match Settings::flag(table, Key::LoginShell) {
            Ok(value) => value,
            Err(e) => return Err(e),
        };
        let run_shell = match Settings::flag(table, Key::RunShell) {
            Ok(value) => value,
            Err(e) => return Err(e),
        };
        let set_home = match Settings::flag(table, Key::SetHome) {
            Ok(value) => value,
            Err(e) => return Err(e),
        };
        let preserve_environment = match Settings::flag(table, Key::PreserveEnvironment) {
            Ok(value) => value,
            Err(e) => return Err(e),
        };
        let preserve_groups = match Settings::flag(table, Key::PreserveGroups) {
            Ok(value) => value,
            Err(e) => return Err(e),
        };
        let ignore_ticket = match Settings::flag(table, Key::IgnoreTicket) {
            Ok(value) => value,
            Err(e) => return Err(e),
        };
        let noninteractive = match Settings::flag(table, Key::Noninteractive) {
            Ok(value) => value,
            Err(e) => return Err(e),
        };
        let login_class = match Settings::word(table, Key::LoginClass) {
            Ok(value) => value,
            Err(e) => return Err(e),
        };
        let selinux_role = match Settings::word(table, Key::SelinuxRole) {
            Ok(value) => value,
            Err(e) => return Err(e),
        };
        let selinux_type = match Settings::word(table, Key::SelinuxType) {
            Ok(value) => value,
            Err(e) => return Err(e),
        };
        let bsd_auth_type = match Settings::word(table, Key::BsdAuthType) {
            Ok(value) => value,
            Err(e) => return Err(e),
        };
        let close_from = match optional(table.get_u64(Key::Closefrom.name()), Key::Closefrom) {
            Ok(value) => value,
            Err(e) => return Err(e),
        };
        Ok(
            Settings {
                progname,
                sudoedit,
                runas_user,
                runas_group,
                prompt,
                login_shell,
                run_shell,
                set_home,
                preserve_environment,
                preserve_groups,
                ignore_ticket,
                noninteractive,
                login_class,
                selinux_role,
                selinux_type,
                bsd_auth_type,
                close_from,
            },
        )
    }

    /// The flags the program was given, as they would be typed, in a fixed
    /// order.
    pub fn flags(&self) -> (out: Vec<Vec<u8>>)
        ensures
            rows(out@) == self@.flags(),
    {
        let mut out: Vec<Vec<u8>> = Vec::new();
        let edit = self.sudoedit && !bytes_eq(
            self.progname.as_str().as_bytes(),
            "sudoedit".as_bytes(),
        );
        push_switch(&mut out, edit, "--edit");
        push_valued(&mut out, &self.runas_user, "--user ");
        push_valued(&mut out, &self.runas_group, "--group ");
        push_valued(&mut out, &self.prompt, "--prompt ");
        push_switch(&mut out, self.login_shell, "--login");
        push_switch(&mut out, self.run_shell, "--shell");
        push_switch(&mut out, self.set_home, "--set-home");
        push_switch(&mut out, self.preserve_environment, "--preserve-env");
        push_switch(&mut out, self.preserve_groups, "--preserve-groups");
        push_switch(&mut out, self.ignore_ticket, "--reset-timestamp");
        push_switch(&mut out, self.noninteractive, "--non-interactive");
        push_valued(&mut out, &self.login_class, "--login-class ");
        push_valued(&mut out, &self.selinux_role, "--role ");
        push_valued(&mut out, &self.selinux_type, "--type ");
        push_valued(&mut out, &self.bsd_auth_type, "--auth-type ");
        push_numbered(&mut out, self.close_from, "--close-from ");
        out
    }
}

/// A settings table that lacks the program name is refused, with
/// `InvalidInput`.
pub proof fn lemma_settings_missing_key(table: Map<Seq<u8>, Seq<u8>>, key: Key)
    requires
        Settings::requires_key(key),
        !table.contains_key(key.text()),
    ensures
        Settings::extract(table) == Err::<SettingsView, ErrorKind>(ErrorKind::InvalidInput(key)),
{
}

/// Reading a settings table looks at nothing but the entries under the
/// keys of the record: two tables that agree on those are read alike,
/// whatever else they hold.
pub proof fn lemma_settings_reads_only_its_keys(
    a: Map<Seq<u8>, Seq<u8>>,
    b: Map<Seq<u8>, Seq<u8>>,
)
    requires
        forall|key: Key| agree_on(a, b, #[trigger] key.text()),
    ensures
        Settings::extract(a) == Settings::extract(b),
{
    lemma_same_reading(a, b, Key::Progname.text());
    lemma_same_reading(a, b, Key::Sudoedit.text());
    lemma_same_reading(a, b, Key::RunasUser.text());
    lemma_same_reading(a, b, Key::RunasGroup.text());
    lemma_same_reading(a, b, Key::Prompt.text());
    lemma_same_reading(a, b, Key::LoginShell.text());
    lemma_same_reading(a, b, Key::RunShell.text());
    lemma_same_reading(a, b, Key::SetHome.text());
    lemma_same_reading(a, b, Key::PreserveEnvironment.text());
    lemma_same_reading(a, b, Key::PreserveGroups.text());
    lemma_same_reading(a, b, Key::IgnoreTicket.text());
    lemma_same_reading(a, b, Key::Noninteractive.text());
    lemma_same_reading(a, b, Key::LoginClass.text());
    lemma_same_reading(a, b, Key::SelinuxRole.text());
    lemma_same_reading(a, b, Key::SelinuxType.text());
    lemma_same_reading(a, b, Key::BsdAuthType.text());
    lemma_same_reading(a, b, Key::Closefrom.text());
}

} // verus!
