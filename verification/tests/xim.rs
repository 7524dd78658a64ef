use deniald::xim::{modifier_from_server_atom, select_xim_modifier};

fn registrations(entries: &[(&[u8], bool)]) -> Vec<(Vec<u8>, bool)> {
    entries.iter().map(|(name, live)| (name.to_vec(), *live)).collect()
}

#[test]
fn selects_only_one_live_well_formed_xim_server() {
    assert_eq!(
        select_xim_modifier(&registrations(&[(b"@server=fcitx".as_slice(), true)])),
        Some("@im=fcitx".to_owned())
    );
    assert_eq!(
        select_xim_modifier(&registrations(&[
            (b"@server=stale".as_slice(), false),
            (b"@server=ibus".as_slice(), true),
        ])),
        Some("@im=ibus".to_owned())
    );
    assert_eq!(
        select_xim_modifier(&registrations(&[
            (b"@server=fcitx".as_slice(), true),
            (b"@server=ibus".as_slice(), true),
        ])),
        None
    );
    assert_eq!(
        select_xim_modifier(&registrations(&[
            (b"not-a-server".as_slice(), true),
            (b"@server=".as_slice(), true),
            (b"@server=bad\0name".as_slice(), true),
        ])),
        None
    );
}

#[test]
fn duplicate_registrations_of_one_server_are_unambiguous() {
    assert_eq!(
        select_xim_modifier(&registrations(&[
            (b"@server=ibus".as_slice(), true),
            (b"@server=ibus".as_slice(), true),
        ])),
        Some("@im=ibus".to_owned())
    );
    assert_eq!(select_xim_modifier(&Vec::new()), None);
}

#[test]
fn server_atoms_must_be_short_printable_utf8() {
    assert_eq!(modifier_from_server_atom("@server=日本".as_bytes()), Some("@im=日本".to_owned()));
    assert_eq!(modifier_from_server_atom(b"@server=\xff"), None);
    assert_eq!(modifier_from_server_atom(b"@server=del\x7f"), None);
    let mut long = b"@server=".to_vec();
    long.extend(std::iter::repeat(b'a').take(256));
    assert_eq!(modifier_from_server_atom(&long), Some(format!("@im={}", "a".repeat(256))));
    long.push(b'a');
    assert_eq!(modifier_from_server_atom(&long), None);
    assert_eq!(modifier_from_server_atom(b"@serve"), None);
}

#[test]
fn registration_order_does_not_change_the_choice() {
    let forward = registrations(&[
        (b"@server=stale".as_slice(), false),
        (b"@server=fcitx".as_slice(), true),
        (b"not-a-server".as_slice(), true),
    ]);
    let mut backward = forward.clone();
    backward.reverse();
    backward.push((b"@server=fcitx".to_vec(), true));
    assert_eq!(select_xim_modifier(&forward), select_xim_modifier(&backward));
    assert_eq!(select_xim_modifier(&backward), Some("@im=fcitx".to_owned()));
}
