use sudo_plugin::command_info::CommandInfo;
use sudo_plugin::errors::ErrorKind;
use sudo_plugin::keys::Key;
use sudo_plugin::option_map::OptionMap;
use sudo_plugin::settings::Settings;
use sudo_plugin::user_info::UserInfo;

fn read(lines: &[&[u8]]) -> OptionMap {
    let entries: Vec<Vec<u8>> = lines.iter().map(|l| l.to_vec()).collect();
    OptionMap::from_entries(&entries)
}

fn words(list: &[&str]) -> Vec<Vec<u8>> {
    list.iter().map(|w| w.as_bytes().to_vec()).collect()
}

#[test]
fn user_info_is_read_from_its_table() {
    let t = read(&[
        b"uid=1000",
        b"gid=100",
        b"groups=100,4,27",
        b"cwd=/home/alice",
        b"tty=/dev/pts/3",
        b"user=alice",
        b"lines=24",
    ]);
    let info = UserInfo::try_from(&t).unwrap();
    assert_eq!(info.uid(), 1000);
    assert_eq!(info.gid(), 100);
    assert_eq!(info.groups(), &vec![100, 4, 27]);
    assert_eq!(info.cwd(), &b"/home/alice".to_vec());
    assert_eq!(info.tty(), Some(&b"/dev/pts/3".to_vec()));
}

#[test]
fn user_info_does_without_a_terminal() {
    let t = read(&[b"uid=0", b"gid=0", b"groups=0", b"cwd=/"]);
    let info = UserInfo::try_from(&t).unwrap();
    assert_eq!(info.uid(), 0);
    assert_eq!(info.gid(), 0);
    assert_eq!(info.groups(), &vec![0]);
    assert_eq!(info.cwd(), &b"/".to_vec());
    assert_eq!(info.tty(), None);
}

#[test]
fn user_info_without_the_user_id_is_refused() {
    let t = read(&[b"gid=100", b"groups=100", b"cwd=/home/alice"]);
    let err = UserInfo::try_from(&t).unwrap_err();
    assert_eq!(err.kind(), ErrorKind::InvalidInput(Key::Uid));
    assert!(err.chain.is_empty());
}

#[test]
fn user_info_needs_each_of_its_required_entries() {
    let full: Vec<&[u8]> = vec![b"uid=1", b"gid=2", b"groups=2,3", b"cwd=/"];
    let keys = [Key::Uid, Key::Gid, Key::Groups, Key::Cwd];
    for skip in 0..full.len() {
        let lines: Vec<&[u8]> = full
            .iter()
            .enumerate()
            .filter(|(i, _)| *i != skip)
            .map(|(_, l)| *l)
            .collect();
        let err = UserInfo::try_from(&read(&lines)).unwrap_err();
        assert_eq!(err.kind(), ErrorKind::InvalidInput(keys[skip]));
    }
    assert!(UserInfo::try_from(&read(&[])).is_err());
}

#[test]
fn user_info_refuses_misshapen_entries() {
    let err = UserInfo::try_from(&read(&[b"uid=alice", b"gid=2", b"groups=2", b"cwd=/"]))
        .unwrap_err();
    assert_eq!(err.kind(), ErrorKind::InvalidInput(Key::Uid));
    let err = UserInfo::try_from(&read(&[b"uid=1", b"gid=-2", b"groups=2", b"cwd=/"]))
        .unwrap_err();
    assert_eq!(err.kind(), ErrorKind::InvalidInput(Key::Gid));
    let err = UserInfo::try_from(&read(&[b"uid=1", b"gid=2", b"groups=", b"cwd=/"]))
        .unwrap_err();
    assert_eq!(err.kind(), ErrorKind::InvalidInput(Key::Groups));
    let err = UserInfo::try_from(&read(&[b"uid=1", b"gid=2", b"groups=2,", b"cwd=/"]))
        .unwrap_err();
    assert_eq!(err.kind(), ErrorKind::InvalidInput(Key::Groups));
    let err = UserInfo::try_from(&read(&[b"uid=4294967296", b"gid=2", b"groups=2", b"cwd=/"]))
        .unwrap_err();
    assert_eq!(err.kind(), ErrorKind::InvalidInput(Key::Uid));
}

#[test]
fn the_first_entry_at_fault_is_the_one_named() {
    let err = UserInfo::try_from(&read(&[b"cwd=/", b"groups=x", b"gid=y"])).unwrap_err();
    assert_eq!(err.kind(), ErrorKind::InvalidInput(Key::Uid));
    let err = UserInfo::try_from(&read(&[b"uid=1", b"groups=x", b"gid=y"])).unwrap_err();
    assert_eq!(err.kind(), ErrorKind::InvalidInput(Key::Gid));
    let err = UserInfo::try_from(&read(&[b"groups=x", b"uid=1", b"gid=2"])).unwrap_err();
    assert_eq!(err.kind(), ErrorKind::InvalidInput(Key::Groups));
    let err = CommandInfo::try_from(&read(&[
        b"preserve_groups=maybe",
        b"runas_groups=x",
        b"runas_uid=0",
        b"runas_gid=0",
    ]))
    .unwrap_err();
    assert_eq!(err.kind(), ErrorKind::InvalidInput(Key::RunasGroups));
}

#[test]
fn command_info_is_read_from_its_table() {
    let t = read(&[
        b"command=/bin/ls",
        b"runas_uid=0",
        b"runas_gid=0",
        b"runas_euid=1",
        b"runas_egid=2",
        b"runas_groups=0,1,2",
        b"preserve_groups=false",
        b"cwd=/root",
    ]);
    let info = CommandInfo::try_from(&t).unwrap();
    assert_eq!(
        info,
        CommandInfo {
            runas_uid: 0,
            runas_gid: 0,
            runas_euid: 1,
            runas_egid: 2,
            runas_groups: Some(vec![0, 1, 2]),
            preserve_groups: false,
            cwd: Some(b"/root".to_vec()),
        }
    );
}

#[test]
fn command_info_falls_back_on_its_defaults() {
    let t = read(&[b"runas_uid=33", b"runas_gid=44"]);
    let info = CommandInfo::try_from(&t).unwrap();
    assert_eq!(
        info,
        CommandInfo {
            runas_uid: 33,
            runas_gid: 44,
            runas_euid: 33,
            runas_egid: 44,
            runas_groups: None,
            preserve_groups: false,
            cwd: None,
        }
    );
}

#[test]
fn command_info_takes_the_effective_id_over_the_plain_one() {
    let t = read(&[b"runas_gid=44", b"runas_egid=55", b"runas_uid=33"]);
    let info = CommandInfo::try_from(&t).unwrap();
    assert_eq!(info.runas_gid, 44);
    assert_eq!(info.runas_egid, 55);
    assert_eq!(info.runas_euid, 33);
    let t = read(&[b"runas_egid=55", b"runas_gid=44", b"runas_uid=33", b"runas_euid=66"]);
    let info = CommandInfo::try_from(&t).unwrap();
    assert_eq!(info.runas_egid, 55);
    assert_eq!(info.runas_euid, 66);
}

#[test]
fn command_info_reads_a_bare_preserve_groups() {
    let t = read(&[b"runas_uid=0", b"runas_gid=0", b"preserve_groups"]);
    assert!(CommandInfo::try_from(&t).unwrap().preserve_groups);
    let t = read(&[b"runas_uid=0", b"runas_gid=0", b"preserve_groups=true"]);
    assert!(CommandInfo::try_from(&t).unwrap().preserve_groups);
    let t = read(&[b"runas_uid=0", b"runas_gid=0", b"preserve_groups=preserve_groups"]);
    assert!(CommandInfo::try_from(&t).unwrap().preserve_groups);
}

#[test]
fn command_info_tolerates_groups_named_and_preserved_at_once() {
    let t = read(&[b"runas_uid=0", b"runas_gid=0", b"preserve_groups=true", b"runas_groups=1,2"]);
    let info = CommandInfo::try_from(&t).unwrap();
    assert!(info.preserve_groups);
    assert_eq!(info.runas_groups, Some(vec![1, 2]));
}

#[test]
fn command_info_needs_its_required_entries_and_right_shapes() {
    let err = CommandInfo::try_from(&read(&[b"runas_gid=0"])).unwrap_err();
    assert_eq!(err.kind(), ErrorKind::InvalidInput(Key::RunasUid));
    let err = CommandInfo::try_from(&read(&[b"runas_uid=0"])).unwrap_err();
    assert_eq!(err.kind(), ErrorKind::InvalidInput(Key::RunasGid));
    let err = CommandInfo::try_from(&read(&[b"runas_uid=0", b"runas_gid=0", b"runas_euid=root"]))
        .unwrap_err();
    assert_eq!(err.kind(), ErrorKind::InvalidInput(Key::RunasEuid));
    let err = CommandInfo::try_from(&read(&[b"runas_uid=0", b"runas_gid=0", b"runas_egid="]))
        .unwrap_err();
    assert_eq!(err.kind(), ErrorKind::InvalidInput(Key::RunasEgid));
    let err = CommandInfo::try_from(&read(&[b"runas_uid=0", b"runas_gid=0", b"runas_groups=a"]))
        .unwrap_err();
    assert_eq!(err.kind(), ErrorKind::InvalidInput(Key::RunasGroups));
    let err =
        CommandInfo::try_from(&read(&[b"runas_uid=0", b"runas_gid=0", b"preserve_groups=1"]))
            .unwrap_err();
    assert_eq!(err.kind(), ErrorKind::InvalidInput(Key::PreserveGroups));
    assert!(err.chain.is_empty());
}

#[test]
fn settings_are_read_from_their_table() {
    let t = read(&[
        b"progname=sudo",
        b"runas_user=root",
        b"login_shell=true",
        b"preserve_groups",
        b"closefrom=3",
        b"prompt=Password: ",
        b"debug_flags=all@debug",
        b"network_addrs=10.0.0.1/255.0.0.0",
    ]);
    let s = Settings::try_from(&t).unwrap();
    assert_eq!(s.progname, "sudo");
    assert_eq!(s.runas_user.as_deref(), Some("root"));
    assert_eq!(s.runas_group, None);
    assert_eq!(s.prompt.as_deref(), Some("Password: "));
    assert!(s.login_shell);
    assert!(s.preserve_groups);
    assert!(!s.sudoedit);
    assert!(!s.run_shell);
    assert!(!s.set_home);
    assert!(!s.preserve_environment);
    assert!(!s.ignore_ticket);
    assert!(!s.noninteractive);
    assert_eq!(s.login_class, None);
    assert_eq!(s.selinux_role, None);
    assert_eq!(s.selinux_type, None);
    assert_eq!(s.bsd_auth_type, None);
    assert_eq!(s.close_from, Some(3));
}

#[test]
fn settings_need_only_the_program_name() {
    let s = Settings::try_from(&read(&[b"progname=sudoedit"])).unwrap();
    assert_eq!(s.progname, "sudoedit");
    assert_eq!(s.flags(), Vec::<Vec<u8>>::new());
    let err = Settings::try_from(&read(&[b"runas_user=root"])).unwrap_err();
    assert_eq!(err.kind(), ErrorKind::InvalidInput(Key::Progname));
    let err = Settings::try_from(&read(&[])).unwrap_err();
    assert_eq!(err.kind(), ErrorKind::InvalidInput(Key::Progname));
}

#[test]
fn settings_refuse_misshapen_entries() {
    let err = Settings::try_from(&read(&[b"progname=\xff"])).unwrap_err();
    assert_eq!(err.kind(), ErrorKind::InvalidInput(Key::Progname));
    let err = Settings::try_from(&read(&[b"progname=sudo", b"login_shell=on"])).unwrap_err();
    assert_eq!(err.kind(), ErrorKind::InvalidInput(Key::LoginShell));
    let err = Settings::try_from(&read(&[b"progname=sudo", b"closefrom=three"])).unwrap_err();
    assert_eq!(err.kind(), ErrorKind::InvalidInput(Key::Closefrom));
    let err = Settings::try_from(&read(&[b"progname=sudo", b"runas_user=\xc0\x80"])).unwrap_err();
    assert_eq!(err.kind(), ErrorKind::InvalidInput(Key::RunasUser));
    let err = Settings::try_from(&read(&[b"progname=sudo", b"closefrom=x", b"sudoedit=x"]))
        .unwrap_err();
    assert_eq!(err.kind(), ErrorKind::InvalidInput(Key::Sudoedit));
}

#[test]
fn flags_come_in_a_fixed_order() {
    let t = read(&[
        b"closefrom=10",
        b"bsd_auth_type=passwd",
        b"selinux_type=t",
        b"selinux_role=r",
        b"login_class=staff",
        b"noninteractive=true",
        b"ignore_ticket=true",
        b"preserve_groups=true",
        b"preserve_environment=true",
        b"set_home=true",
        b"run_shell=true",
        b"login_shell=true",
        b"prompt=pw:",
        b"runas_group=wheel",
        b"runas_user=root",
        b"sudoedit=true",
        b"progname=sudo",
    ]);
    let s = Settings::try_from(&t).unwrap();
    assert_eq!(
        s.flags(),
        words(&[
            "--edit",
            "--user root",
            "--group wheel",
            "--prompt pw:",
            "--login",
            "--shell",
            "--set-home",
            "--preserve-env",
            "--preserve-groups",
            "--reset-timestamp",
            "--non-interactive",
            "--login-class staff",
            "--role r",
            "--type t",
            "--auth-type passwd",
            "--close-from 10",
        ])
    );
}

#[test]
fn flags_that_are_off_are_left_out() {
    let t = read(&[b"progname=sudo", b"login_shell=false", b"run_shell=true", b"closefrom=0"]);
    let s = Settings::try_from(&t).unwrap();
    assert_eq!(s.flags(), words(&["--shell", "--close-from 0"]));
}

#[test]
fn editing_is_no_flag_when_run_as_sudoedit() {
    let s = Settings::try_from(&read(&[b"progname=sudoedit", b"sudoedit=true"])).unwrap();
    assert!(s.sudoedit);
    assert_eq!(s.flags(), Vec::<Vec<u8>>::new());
    let s = Settings::try_from(&read(&[b"progname=sudo", b"sudoedit=true"])).unwrap();
    assert_eq!(s.flags(), words(&["--edit"]));
    let s = Settings::try_from(&read(&[b"progname=sudo", b"sudoedit=false"])).unwrap();
    assert_eq!(s.flags(), Vec::<Vec<u8>>::new());
}

#[test]
fn records_do_not_depend_on_the_order_of_entries() {
    let a = read(&[b"uid=1", b"gid=2", b"groups=2,3", b"cwd=/a", b"tty=/dev/tty1", b"x=y"]);
    let b = read(&[b"x=y", b"tty=/dev/tty1", b"cwd=/a", b"zzz", b"groups=2,3", b"gid=2", b"uid=1"]);
    let ia = UserInfo::try_from(&a).unwrap();
    let ib = UserInfo::try_from(&b).unwrap();
    assert_eq!(ia.uid(), ib.uid());
    assert_eq!(ia.gid(), ib.gid());
    assert_eq!(ia.groups(), ib.groups());
    assert_eq!(ia.cwd(), ib.cwd());
    assert_eq!(ia.tty(), ib.tty());

    let a = read(&[b"runas_uid=1", b"runas_gid=2", b"runas_groups=5", b"other=1"]);
    let b = read(&[b"runas_groups=5", b"more=2", b"runas_gid=2", b"runas_uid=1"]);
    assert_eq!(CommandInfo::try_from(&a).unwrap(), CommandInfo::try_from(&b).unwrap());

    let a = read(&[b"progname=sudo", b"runas_user=bob", b"set_home", b"junk=1"]);
    let b = read(&[b"set_home", b"runas_user=bob", b"progname=sudo"]);
    assert_eq!(Settings::try_from(&a).unwrap(), Settings::try_from(&b).unwrap());
}

#[test]
fn records_are_read_the_same_every_time() {
    let t = read(&[b"uid=1", b"gid=2", b"groups=2,3", b"cwd=/a"]);
    let first = UserInfo::try_from(&t).unwrap();
    let second = UserInfo::try_from(&t).unwrap();
    assert_eq!(first.uid(), second.uid());
    assert_eq!(first.groups(), second.groups());
    assert_eq!(first.cwd(), second.cwd());
    let bad = read(&[b"uid=1"]);
    assert_eq!(
        UserInfo::try_from(&bad).unwrap_err(),
        UserInfo::try_from(&bad).unwrap_err()
    );
}
