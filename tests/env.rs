use flint::env::{Env, EnvError, EnvUpdate, EnvVar};
use flint::vars::{Seat, SessionClass, Shell, VtNumber};

fn bytes(s: &str) -> Vec<u8> {
    s.as_bytes().to_vec()
}

#[test]
fn pull_from_empty_names_missing_variable() {
    let mut env = Env::empty();
    let r = env.pull::<VtNumber>();
    match r {
        Err(e) => {
            assert!(matches!(e, EnvError::MissingVariable { .. }));
            assert_eq!(e.message(), "Variable XDG_VTNR does not exist");
        }
        Ok(_) => panic!("pull from an empty environment succeeded"),
    }
}

#[test]
fn pull_after_set_returns_value_and_removes_it() {
    let mut env = Env::empty().set(VtNumber::manually_checked_from(5));
    assert_eq!(env.get_raw("XDG_VTNR"), Some(bytes("5")));
    let v = env.pull::<VtNumber>().ok().unwrap();
    assert_eq!(v.get(), 5);
    assert_eq!(env.get_raw("XDG_VTNR"), None);
}

#[test]
fn pull_of_malformed_value_is_invalid_and_removes_it() {
    let mut env = Env::empty().set_untyped("XDG_VTNR".to_string(), bytes("tty5"));
    match env.pull::<VtNumber>() {
        Err(e) => {
            assert!(matches!(e, EnvError::InvalidVariable { .. }));
            assert_eq!(e.message(), "Variable XDG_VTNR exists, but contents are invalid");
        }
        Ok(_) => panic!("malformed number was read"),
    }
    assert_eq!(env.get_raw("XDG_VTNR"), None);
}

#[test]
fn peek_reads_without_removing() {
    let env = Env::empty().set(VtNumber::manually_checked_from(65535));
    assert_eq!(env.peek::<VtNumber>().ok().unwrap().get(), 65535);
    assert_eq!(env.get_raw("XDG_VTNR"), Some(bytes("65535")));
}

#[test]
fn vt_number_out_of_range_is_invalid() {
    let env = Env::empty().set_untyped("XDG_VTNR".to_string(), bytes("65536"));
    assert!(matches!(env.peek::<VtNumber>(), Err(EnvError::InvalidVariable { .. })));
}

#[test]
fn merge_prefers_later_values_and_keeps_all_names() {
    let a = Env::empty()
        .set_untyped("A".to_string(), bytes("1"))
        .set_untyped("B".to_string(), bytes("2"));
    let b = Env::empty()
        .set_untyped("B".to_string(), bytes("3"))
        .set_untyped("C".to_string(), bytes("4"));
    let m = a.merge(&b);
    assert_eq!(m.get_raw("A"), Some(bytes("1")));
    assert_eq!(m.get_raw("B"), Some(bytes("3")));
    assert_eq!(m.get_raw("C"), Some(bytes("4")));
    assert_eq!(m.entries().len(), 3);
}

#[test]
fn merge_with_empty_is_identity() {
    let a = Env::empty().set_untyped("A".to_string(), bytes("1"));
    let left = Env::empty().merge(&a);
    let right = a.duplicate().merge(&Env::empty());
    assert_eq!(left.get_raw("A"), Some(bytes("1")));
    assert_eq!(right.get_raw("A"), Some(bytes("1")));
    assert_eq!(left.entries().len(), 1);
    assert_eq!(right.entries().len(), 1);
}

#[test]
fn merge_is_associative_on_an_example() {
    let mk = |pairs: &[(&str, &str)]| {
        let mut e = Env::empty();
        for (k, v) in pairs {
            e = e.set_untyped(k.to_string(), bytes(v));
        }
        e
    };
    let a = mk(&[("X", "a"), ("Y", "a")]);
    let b = mk(&[("Y", "b"), ("Z", "b")]);
    let c = mk(&[("Z", "c")]);
    let left = a.duplicate().merge(&b).merge(&c);
    let right = a.merge(&b.merge(&c));
    for key in ["X", "Y", "Z"] {
        assert_eq!(left.get_raw(key), right.get_raw(key));
    }
    assert_eq!(left.get_raw("Y"), Some(bytes("b")));
    assert_eq!(left.get_raw("Z"), Some(bytes("c")));
}

#[test]
fn sequence_of_updates_last_write_wins() {
    let base = Env::empty().set_untyped("KEEP".to_string(), bytes("base"));
    let patch = Env::empty().set_untyped("SHARED".to_string(), bytes("merged"));
    let updates = vec![
        EnvUpdate::assign("SHARED", "first"),
        EnvUpdate::typed(VtNumber::manually_checked_from(7)),
        EnvUpdate::Merge { vars: patch },
        EnvUpdate::assign("MOZ_ENABLE_WAYLAND", "1"),
        EnvUpdate::typed(VtNumber::manually_checked_from(8)),
    ];
    let env = base.apply(updates);
    assert_eq!(env.get_raw("KEEP"), Some(bytes("base")));
    assert_eq!(env.get_raw("SHARED"), Some(bytes("merged")));
    assert_eq!(env.get_raw("MOZ_ENABLE_WAYLAND"), Some(bytes("1")));
    assert_eq!(env.get_raw("XDG_VTNR"), Some(bytes("8")));
    assert_eq!(env.entries().len(), 4);
}

#[test]
fn from_values_later_pair_wins() {
    let env = Env::from_values(vec![
        ("A".to_string(), bytes("1")),
        ("A".to_string(), bytes("2")),
        ("B".to_string(), bytes("3")),
    ]);
    assert_eq!(env.get_raw("A"), Some(bytes("2")));
    assert_eq!(env.get_raw("B"), Some(bytes("3")));
}

#[test]
fn to_vec_lists_assignments() {
    let env = Env::empty()
        .set_untyped("A".to_string(), bytes("1"))
        .set_untyped("HOME".to_string(), bytes("/home/u"));
    let mut lines = env.to_vec();
    lines.sort();
    assert_eq!(lines, vec![bytes("A=1"), bytes("HOME=/home/u")]);
}

#[test]
fn from_assignments_reads_pam_list() {
    let lines = vec![
        bytes("LANG=C"),
        bytes("PATH=/bin:/usr/bin"),
        bytes("EQ=a=b"),
        bytes("noequals"),
        vec![0xff, b'=', b'x'],
        bytes("LANG=de_DE"),
    ];
    let env = Env::from_assignments(&lines);
    assert_eq!(env.get_raw("LANG"), Some(bytes("de_DE")));
    assert_eq!(env.get_raw("PATH"), Some(bytes("/bin:/usr/bin")));
    assert_eq!(env.get_raw("EQ"), Some(bytes("a=b")));
    assert_eq!(env.entries().len(), 3);
}

#[test]
fn session_class_written_forms() {
    let cases = [
        (SessionClass::User { early: false, light: false }, "user"),
        (SessionClass::User { early: true, light: false }, "user-early"),
        (SessionClass::User { early: false, light: true }, "user-light"),
        (SessionClass::User { early: true, light: true }, "user-early-light"),
        (SessionClass::Greeter, "greeter"),
        (SessionClass::LockScreen, "lock-screen"),
    ];
    for (class, text) in cases {
        assert_eq!(class.serialize(), bytes(text));
        assert_eq!(SessionClass::deserialize(text.as_bytes()), Some(class));
    }
    assert_eq!(SessionClass::deserialize(b"user-light-early"), None);
}

#[test]
fn seat_defaults_to_seat0() {
    assert_eq!(Seat::default_seat().0, bytes("seat0"));
}

#[test]
fn vt_number_text_forms() {
    let vt = VtNumber::manually_checked_from(12);
    assert_eq!(vt.to_string(), "12");
    assert_eq!(vt.to_tty_string(), "tty12");
    assert_eq!(VtNumber::manually_checked_from(0).to_string(), "0");
}

#[test]
fn shell_is_kept_as_bytes() {
    let env = Env::empty().set(Shell(bytes("/bin/zsh")));
    assert_eq!(env.peek::<Shell>().ok().unwrap().0, bytes("/bin/zsh"));
}

#[test]
fn assignment_text_splits_at_first_equals() {
    let u = EnvUpdate::from_assignment("MOZ_ENABLE_WAYLAND=1").unwrap();
    let env = Env::empty().apply(vec![u]);
    assert_eq!(env.get_raw("MOZ_ENABLE_WAYLAND"), Some(bytes("1")));
    let u = EnvUpdate::from_assignment("OPTS=a=b").unwrap();
    let env = Env::empty().apply(vec![u]);
    assert_eq!(env.get_raw("OPTS"), Some(bytes("a=b")));
    assert!(EnvUpdate::from_assignment("NOVALUE").is_none());
}

#[test]
fn listing_read_back_gives_same_environment() {
    let env = Env::empty()
        .set(VtNumber::manually_checked_from(4))
        .set_untyped("PATH".to_string(), bytes("/bin:/usr/bin"))
        .set_untyped("EMPTY".to_string(), Vec::new())
        .set_untyped("WITH_EQ".to_string(), bytes("a=b"));
    let back = Env::from_assignments(&env.to_vec());
    assert_eq!(back.entries().len(), 4);
    for key in ["XDG_VTNR", "PATH", "EMPTY", "WITH_EQ"] {
        assert_eq!(back.get_raw(key), env.get_raw(key));
    }
}
