use flint::vars::Seat;
use flint::x11::Display;
use flint::xauth::{Authority, Cookie, Entry, Family, Scope, Target, XAuthorityManager, XauthError};

fn cookie() -> Cookie {
    Cookie::new([
        0x10, 0x21, 0x32, 0x43, 0x54, 0x65, 0x76, 0x87, 0x98, 0xa9, 0xba, 0xcb, 0xdc, 0xed, 0xfe, 0x0f,
    ])
}

fn manager() -> XAuthorityManager {
    XAuthorityManager::new(
        &b"/run/user/1000/flint".to_vec(),
        &Seat(b"seat0".to_vec()),
        cookie(),
        b"myhost".to_vec(),
        true,
    )
}

#[test]
fn entry_encoding_is_big_endian_with_lengths() {
    let e = Entry {
        family: Family::Local,
        address: b"host".to_vec(),
        display_number: b"7".to_vec(),
        auth_name: b"MIT-MAGIC-COOKIE-1".to_vec(),
        auth_data: vec![1, 2],
    };
    let mut out = Vec::new();
    assert_eq!(e.write_to(&mut out), Ok(()));
    let mut expected = vec![0x01, 0x00, 0x00, 0x04];
    expected.extend_from_slice(b"host");
    expected.extend_from_slice(&[0x00, 0x01, b'7', 0x00, 0x12]);
    expected.extend_from_slice(b"MIT-MAGIC-COOKIE-1");
    expected.extend_from_slice(&[0x00, 0x02, 1, 2]);
    assert_eq!(out, expected);
}

#[test]
fn entry_round_trip() {
    let e = Entry::new(&cookie(), Scope::Local(b"myhost".to_vec()), Target::Client { display_number: 12 });
    let mut out = vec![0xaa];
    e.write_to(&mut out).unwrap();
    out.push(0x55);
    let (back, next) = Entry::read_from(&out, 1).unwrap().unwrap();
    assert_eq!(back.family, Family::Local);
    assert_eq!(back.address, e.address);
    assert_eq!(back.display_number, b"12".to_vec());
    assert_eq!(back.auth_name, e.auth_name);
    assert_eq!(back.auth_data, e.auth_data);
    assert_eq!(next, out.len() - 1);
}

#[test]
fn family_codes() {
    assert_eq!(Family::Local.encode(), 256);
    assert_eq!(Family::Wild.encode(), 65535);
    assert_eq!(Family::Other(254).encode(), 254);
    assert_eq!(Family::decode(256), Family::Local);
    assert_eq!(Family::decode(65535), Family::Wild);
    assert_eq!(Family::decode(252), Family::Other(252));
}

#[test]
fn read_from_end_and_truncation() {
    assert!(matches!(Entry::read_from(&[], 0), Ok(None)));
    assert!(matches!(Entry::read_from(&[0x01], 0), Ok(None)));
    assert!(matches!(Entry::read_from(&[0x01, 0x00, 0x00, 0x05, b'a'], 0), Err(XauthError::Truncated)));
}

#[test]
fn field_too_long_is_refused() {
    let e = Entry {
        family: Family::Wild,
        address: vec![0; 65536],
        display_number: vec![],
        auth_name: vec![],
        auth_data: vec![],
    };
    let mut out = vec![9];
    assert_eq!(e.write_to(&mut out), Err(XauthError::FieldTooLong));
    assert_eq!(out, vec![9]);
}

#[test]
fn authority_round_trip() {
    let (authority, _) = manager().setup_client(&Display::new(3));
    let bytes = authority.write_to().unwrap();
    let back = Authority::read_from(&bytes).ok().unwrap();
    assert_eq!(back.0.len(), 2);
    for (a, b) in authority.0.iter().zip(back.0.iter()) {
        assert_eq!(a.family, b.family);
        assert_eq!(a.address, b.address);
        assert_eq!(a.display_number, b.display_number);
        assert_eq!(a.auth_name, b.auth_name);
        assert_eq!(a.auth_data, b.auth_data);
    }
    assert!(matches!(Authority::read_from(&bytes[..bytes.len() - 1]), Err(XauthError::Truncated)));
}

#[test]
fn authority_add_entry_appends() {
    let mut a = Authority::new(None);
    assert_eq!(a.0.len(), 0);
    a.add_entry(Entry::new(&cookie(), Scope::Any, Target::Server { slot: 0 }));
    assert_eq!(a.0.len(), 1);
    assert_eq!(a.write_to().unwrap().len(), 2 + 2 + 4 + 2 + 1 + 2 + 18 + 2 + 16);
}

#[test]
fn setup_client_two_entries_one_cookie() {
    let (authority, env) = manager().setup_client(&Display::new(7));
    assert_eq!(authority.0.len(), 2);
    let wild = &authority.0[0];
    let local = &authority.0[1];
    assert_eq!(wild.family, Family::Wild);
    assert_eq!(wild.address, vec![127, 0, 0, 2]);
    assert_eq!(local.family, Family::Local);
    assert_eq!(local.address, b"myhost".to_vec());
    assert_eq!(wild.auth_data.len(), 16);
    assert_eq!(wild.auth_data, local.auth_data);
    assert_eq!(wild.auth_data, cookie().raw_data().1);
    assert_eq!(wild.auth_name, b"MIT-MAGIC-COOKIE-1".to_vec());
    assert_eq!(wild.display_number, b"7".to_vec());
    assert_eq!(local.display_number, b"7".to_vec());
    assert_eq!(env.0, b"/run/user/1000/flint/seat0/client-authority".to_vec());
}

#[test]
fn setup_server_single_wildcard_slot_zero() {
    let m = manager();
    let authority = m.setup_server();
    assert_eq!(authority.0.len(), 1);
    assert_eq!(authority.0[0].family, Family::Wild);
    assert_eq!(authority.0[0].display_number, b"0".to_vec());
    assert_eq!(m.server_path(), b"/run/user/1000/flint/seat0/server-authority".to_vec());
    assert_eq!(m.directory(), b"/run/user/1000/flint/seat0".to_vec());
    assert!(m.lock());
}
