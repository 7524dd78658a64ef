//! Choosing the X input method that Xwayland clients should use.
//!
//! XIM servers announce themselves on the root window's `XIM_SERVERS`
//! property with a selection atom named `@server=NAME`. Stale entries linger,
//! so only atoms whose selection is owned count, and only a single
//! unambiguous live server yields the `XMODIFIERS` value `@im=NAME`.

use vstd::prelude::*;
use vstd::utf8::{decode_utf8, valid_utf8};

verus! {

/// The longest server name accepted from an atom.
pub const MAX_XIM_SERVER_NAME_BYTES: usize = 256;

/// `@server=`, the prefix of a server's selection atom name.
pub open spec fn server_prefix() -> Seq<u8> {
    seq![64u8, 115u8, 101u8, 114u8, 118u8, 101u8, 114u8, 61u8]
}

/// `@im=`, the prefix of an `XMODIFIERS` input method value.
pub open spec fn modifier_prefix() -> Seq<u8> {
    seq![64u8, 105u8, 109u8, 61u8]
}

/// An ASCII control character: below space, or DEL.
pub open spec fn is_ascii_control(byte: u8) -> bool {
    byte < 32 || byte == 127
}

/// The server name an atom name announces, if it has the `@server=` prefix.
pub open spec fn announced_server(atom_name: Seq<u8>) -> Option<Seq<u8>> {
    if atom_name.len() >= 8 && atom_name.subrange(0, 8) == server_prefix() {
        Some(atom_name.subrange(8, atom_name.len() as int))
    } else {
        None
    }
}

/// A server name that may go into `XMODIFIERS`: not empty, at most 256
/// bytes, free of ASCII control characters.
pub open spec fn acceptable_server(server: Seq<u8>) -> bool {
    &&& 0 < server.len() <= MAX_XIM_SERVER_NAME_BYTES
    &&& forall|i: int| 0 <= i < server.len() ==> !is_ascii_control(#[trigger] server[i])
}

/// The `@im=NAME` modifier an atom name yields, if any: the announced name
/// must be acceptable and the whole value valid UTF-8.
pub open spec fn spec_modifier(atom_name: Seq<u8>) -> Option<Seq<char>> {
    match announced_server(atom_name) {
        Some(server) => if acceptable_server(server) && valid_utf8(modifier_prefix() + server) {
            Some(decode_utf8(modifier_prefix() + server))
        } else {
            None
        },
        None => None,
    }
}

/// `String::from_utf8`, keeping the string: `Some` exactly when the bytes are
/// valid UTF-8, holding the characters they encode.
#[verifier::external_body]
fn string_from_utf8(bytes: Vec<u8>) -> (text: Option<String>)
    ensures
        match text {
            Some(text) => valid_utf8(bytes@) && text@ == decode_utf8(bytes@),
            None => !valid_utf8(bytes@),
        },
{
    String::from_utf8(bytes).ok()
}

fn has_server_prefix(atom_name: &[u8]) -> (prefixed: bool)
    ensures
        prefixed == (atom_name@.len() >= 8 && atom_name@.subrange(0, 8) == server_prefix()),
{
    let prefixed = atom_name.len() >= 8 && atom_name[0] == 64 && atom_name[1] == 115 && atom_name[2] == 101
        && atom_name[3] == 114 && atom_name[4] == 118 && atom_name[5] == 101 && atom_name[6] == 114
        && atom_name[7] == 61;
    proof {
        if prefixed {
            assert(atom_name@.subrange(0, 8) =~= server_prefix());
        }
        if atom_name@.len() >= 8 && atom_name@.subrange(0, 8) == server_prefix() {
            assert(atom_name@.subrange(0, 8)[7] == atom_name@[7]);
        }
    }
    prefixed
}

/// The `XMODIFIERS` value for the XIM server a selection atom announces.
pub fn modifier_from_server_atom(atom_name: &[u8]) -> (modifier: Option<String>)
    ensures
        match modifier {
            Some(modifier) => spec_modifier(atom_name@) == Some(modifier@),
            None => spec_modifier(atom_name@) is None,
        },
{
    if !has_server_prefix(atom_name) {
        return None;
    }
    let ghost server = atom_name@.subrange(8, atom_name@.len() as int);
    let length = atom_name.len() - 8;
    if length == 0 || length > MAX_XIM_SERVER_NAME_BYTES {
        return None;
    }
    let mut bytes: Vec<u8> = Vec::new();
    bytes.push(64);
    bytes.push(105);
    bytes.push(109);
    bytes.push(61);
    proof {
        assert(bytes@ =~= modifier_prefix());
    }
    let mut i: usize = 8;
    while i < atom_name.len()
        invariant
            8 <= i <= atom_name@.len(),
            server == atom_name@.subrange(8, atom_name@.len() as int),
            bytes@ == modifier_prefix() + server.subrange(0, i - 8),
            forall|j: int| 0 <= j < i - 8 ==> !is_ascii_control(#[trigger] server[j]),
        decreases atom_name@.len() - i,
    {
        let byte = atom_name[i];
        if byte < 32 || byte == 127 {
            assert(is_ascii_control(server[i - 8]));
            return None;
        }
        bytes.push(byte);
        i = i + 1;
        assert(bytes@ =~= modifier_prefix() + server.subrange(0, i - 8));
    }
    assert(server.subrange(0, server.len() as int) =~= server);
    string_from_utf8(bytes)
}

/// The registered servers' modifiers, as produced by live registrations.
pub open spec fn live_modifier(registrations: Seq<(Vec<u8>, bool)>, i: int) -> Option<Seq<char>> {
    if registrations[i].1 {
        spec_modifier(registrations[i].0@)
    } else {
        None
    }
}

/// The distinct modifiers the live, well-formed registrations yield.
pub open spec fn live_modifiers(registrations: Seq<(Vec<u8>, bool)>) -> Set<Seq<char>> {
    Set::new(
        |modifier: Seq<char>|
            exists|i: int| 0 <= i < registrations.len() && #[trigger] live_modifier(registrations, i) == Some(modifier),
    )
}

/// Picks the input method from the registered servers (atom name, whether
/// its selection is owned): the modifier when every live well-formed server
/// yields the same one, `None` when there is none or they disagree.
pub fn select_xim_modifier(registrations: &Vec<(Vec<u8>, bool)>) -> (modifier: Option<String>)
    ensures
        match modifier {
            Some(modifier) => live_modifiers(registrations@) == set![modifier@],
            None => forall|m: Seq<char>| live_modifiers(registrations@) != set![m],
        },
        match modifier {
            Some(modifier) => {
                &&& exists|i: int| 0 <= i < registrations@.len() && #[trigger] live_modifier(registrations@, i) == Some(modifier@)
                &&& forall|i: int| 0 <= i < registrations@.len() && #[trigger] live_modifier(registrations@, i) is Some
                    ==> live_modifier(registrations@, i) == Some(modifier@)
            },
            None => {
                ||| forall|i: int| 0 <= i < registrations@.len() ==> #[trigger] live_modifier(registrations@, i) is None
                ||| exists|i: int, j: int| 0 <= i < registrations@.len() && 0 <= j < registrations@.len()
                    && #[trigger] live_modifier(registrations@, i) is Some && #[trigger] live_modifier(registrations@, j) is Some
                    && live_modifier(registrations@, i) != live_modifier(registrations@, j)
            },
        },
{
    let mut chosen: Option<String> = None;
    let mut chosen_at: usize = 0;
    let mut i: usize = 0;
    while i < registrations.len()
        invariant
            i <= registrations@.len(),
            match chosen {
                Some(chosen) => {
                    &&& chosen_at < i
                    &&& live_modifier(registrations@, chosen_at as int) == Some(chosen@)
                    &&& forall|j: int| 0 <= j < i && #[trigger] live_modifier(registrations@, j) is Some
                        ==> live_modifier(registrations@, j) == Some(chosen@)
                },
                None => forall|j: int| 0 <= j < i ==> #[trigger] live_modifier(registrations@, j) is None,
            },
        decreases registrations@.len() - i,
    {
        let (name, owned) = (&registrations[i].0, registrations[i].1);
        if owned {
            match modifier_from_server_atom(name.as_slice()) {
                Some(modifier) => {
                    match &chosen {
                        Some(previous) => {
                            if *previous != modifier {
                                proof {
                                    let a = live_modifier(registrations@, i as int)->0;
                                    let b = live_modifier(registrations@, chosen_at as int)->0;
                                    assert(a != b);
                                    assert forall|m: Seq<char>| live_modifiers(registrations@) != set![m] by {
                                        assert(live_modifiers(registrations@).contains(a));
                                        assert(live_modifiers(registrations@).contains(b));
                                        if live_modifiers(registrations@) == set![m] {
                                            assert(set![m].contains(a));
                                            assert(set![m].contains(b));
                                        }
                                    }
                                }
                                return None;
                            }
                        },
                        None => {
                            chosen = Some(modifier);
                            chosen_at = i;
                        },
                    }
                },
                None => {},
            }
        }
        i = i + 1;
    }
    proof {
        if chosen is Some {
            assert(live_modifier(registrations@, chosen_at as int) == Some(chosen->0@));
            assert(live_modifiers(registrations@) =~= set![chosen->0@]);
        } else {
            assert forall|m: Seq<char>| live_modifiers(registrations@) != set![m] by {
                if live_modifiers(registrations@) == set![m] {
                    assert(set![m].contains(m));
                }
            }
        }
    }
    chosen
}


/// Two registration lists with the same entries (atom name and whether it
/// is live), in any order and with any repetition, yield the same modifiers,
/// so the chosen input method does not depend on how `XIM_SERVERS` orders or
/// repeats its atoms.
pub proof fn law_xim_choice_ignores_order_and_repetition(
    first: Seq<(Vec<u8>, bool)>,
    second: Seq<(Vec<u8>, bool)>,
)
    requires
        forall|i: int| 0 <= i < first.len() ==> exists|j: int| 0 <= j < second.len()
            && (#[trigger] first[i]).0@ == (#[trigger] second[j]).0@ && first[i].1 == second[j].1,
        forall|j: int| 0 <= j < second.len() ==> exists|i: int| 0 <= i < first.len()
            && (#[trigger] first[i]).0@ == (#[trigger] second[j]).0@ && first[i].1 == second[j].1,
    ensures
        live_modifiers(first) == live_modifiers(second),
{
    assert forall|m: Seq<char>| live_modifiers(first).contains(m) implies live_modifiers(second).contains(m) by {
        let i = choose|i: int| 0 <= i < first.len() && #[trigger] live_modifier(first, i) == Some(m);
        let j = choose|j: int| 0 <= j < second.len() && (#[trigger] first[i]).0@ == (#[trigger] second[j]).0@
            && first[i].1 == second[j].1;
        assert(live_modifier(second, j) == Some(m));
    }
    assert forall|m: Seq<char>| live_modifiers(second).contains(m) implies live_modifiers(first).contains(m) by {
        let j = choose|j: int| 0 <= j < second.len() && #[trigger] live_modifier(second, j) == Some(m);
        let i = choose|i: int| 0 <= i < first.len() && (#[trigger] first[i]).0@ == (#[trigger] second[j]).0@
            && first[i].1 == second[j].1;
        assert(live_modifier(first, i) == Some(m));
    }
    assert(live_modifiers(first) =~= live_modifiers(second));
}

} // verus!
