//! The text of the store file: five keys, each holding one field list as a
//! TOML basic string.

use vstd::prelude::*;

use crate::error::HostError;
use crate::host::{FieldLists, Hosts};

verus! {

/// The string that config's TOML reader finds under `key` in `text`, if any.
pub uninterp spec fn toml_string(text: Seq<char>, key: Seq<char>) -> Option<Seq<char>>;

/// Relies on config's `Config::builder`, `File::from_str` with
/// `FileFormat::Toml`, `build` and `Config::get_string`: the value under `key`
/// as a string; `None` where the text is not TOML or the key holds no value
/// that converts to a string. The crate is built with config's
/// `preserve_order`, so its map is an `IndexMap` and the keys of the text are
/// merged in the order in which they stand: the value depends on the text and
/// key alone.
#[verifier::external_body]
fn toml_value(text: &str, key: &str) -> (r: Option<String>)
    ensures
        match r {
            Some(v) => toml_string(text@, key@) == Some(v@),
            None => toml_string(text@, key@) is None,
        },
{
    let built = config::Config::builder().add_source(
        config::File::from_str(text, config::FileFormat::Toml),
    ).build();
    match built {
        Ok(c) => c.get_string(key).ok(),
        Err(_) => None,
    }
}

/// The field lists read from the text of a store, where all five keys hold
/// a string.
pub open spec fn read_back(text: Seq<char>) -> Option<FieldLists> {
    let a = toml_string(text, "alias"@);
    let i = toml_string(text, "ip"@);
    let u = toml_string(text, "ssh_user"@);
    let p = toml_string(text, "pk_path"@);
    let d = toml_string(text, "description"@);
    if a is Some && i is Some && u is Some && p is Some && d is Some {
        Some(
            FieldLists {
                aliases: a->0,
                ips: i->0,
                ssh_users: u->0,
                pk_paths: p->0,
                descriptions: d->0,
            },
        )
    } else {
        None
    }
}

/// The digits of a hexadecimal number.
pub open spec fn hex_digits() -> Seq<char> {
    "0123456789ABCDEF"@
}

/// A control character, which a TOML string may hold only escaped.
pub open spec fn is_control(c: char) -> bool {
    (c as u32) < 0x20 || (c as u32) == 0x7f
}

/// One character as it stands inside a TOML basic (double-quoted) string:
/// quote and backslash behind a backslash, control characters as `\u00XX`,
/// every other character as it is.
pub open spec fn escaped_char(c: char) -> Seq<char> {
    if c == '"' {
        seq!['\\', '"']
    } else if c == '\\' {
        seq!['\\', '\\']
    } else if is_control(c) {
        seq![
            '\\',
            'u',
            '0',
            '0',
            hex_digits()[(c as u32 / 16) as int],
            hex_digits()[(c as u32 % 16) as int],
        ]
    } else {
        seq![c]
    }
}

/// The text as it stands inside a TOML basic string.
pub open spec fn escaped(s: Seq<char>) -> Seq<char>
    decreases s.len(),
{
    if s.len() == 0 {
        Seq::empty()
    } else {
        escaped(s.drop_last()) + escaped_char(s.last())
    }
}

/// The text under which field lists are stored: each list as a TOML basic
/// string under its key.
pub open spec fn stored_form(f: FieldLists) -> Seq<char> {
    "alias = \""@ + escaped(f.aliases) + "\"\nip = \""@ + escaped(f.ips) + "\"\nssh_user = \""@
        + escaped(f.ssh_users) + "\"\npk_path = \""@ + escaped(f.pk_paths)
        + "\"\ndescription = \""@ + escaped(f.descriptions) + "\""@
}

/// Appends the text, escaped for a TOML basic string.
fn append_escaped(r: &mut String, s: &str)
    ensures
        final(r)@ == old(r)@ + escaped(s@),
{
    proof {
        reveal_strlit("0123456789ABCDEF");
    }
    let hex = "0123456789ABCDEF";
    let n = s.unicode_len();
    let ghost start = r@;
    let mut i: usize = 0;
    assert(s@.subrange(0, 0) =~= Seq::<char>::empty());
    assert(start + Seq::<char>::empty() =~= start);
    while i < n
        invariant
            n == s@.len(),
            i <= n,
            hex@ == hex_digits(),
            hex_digits().len() == 16,
            r@ == start + escaped(s@.subrange(0, i as int)),
        decreases n - i,
    {
        let c = s.get_char(i);
        let ghost before = r@;
        assert(s@.subrange(0, i + 1).drop_last() =~= s@.subrange(0, i as int));
        if c == '"' {
            r.append("\\\"");
            proof {
                reveal_strlit("\\\"");
            }
            assert("\\\""@ =~= seq!['\\', '"']);
        } else if c == '\\' {
            r.append("\\\\");
            proof {
                reveal_strlit("\\\\");
            }
            assert("\\\\"@ =~= seq!['\\', '\\']);
        } else if (c as u32) < 0x20 || (c as u32) == 0x7f {
            let code = c as u32;
            let hi = (code / 16) as usize;
            let lo = (code % 16) as usize;
            assert(is_control(c));
            assert(hi < 16 && lo < 16);
            assert(hi == (c as u32 / 16) as int && lo == (c as u32 % 16) as int);
            r.append("\\u00");
            let d1 = hex.substring_char(hi, hi + 1);
            let d2 = hex.substring_char(lo, lo + 1);
            assert(d1@ =~= seq![hex_digits()[hi as int]]);
            assert(d2@ =~= seq![hex_digits()[lo as int]]);
            proof {
                reveal_strlit("\\u00");
            }
            assert("\\u00"@ =~= seq!['\\', 'u', '0', '0']);
            r.append(d1);
            r.append(d2);
            assert(r@ =~= before + escaped_char(c));
        } else {
            let one = s.substring_char(i, i + 1);
            r.append(one);
            assert(one@ =~= seq![c]);
        }
        assert(r@ =~= before + escaped_char(c));
        assert(r@ =~= start + escaped(s@.subrange(0, i + 1)));
        i = i + 1;
    }
    assert(s@.subrange(0, n as int) =~= s@);
}

/// Reads the five field lists out of the text of a store; `StorageCorrupt`
/// where the text is not TOML or a key is missing.
pub fn read_fields(text: &str) -> (r: Result<Hosts, HostError>)
    ensures
        r matches Ok(h) ==> read_back(text@) == Some(h@),
        r is Err ==> read_back(text@) is None && r == Err::<Hosts, HostError>(
            HostError::StorageCorrupt,
        ),
{
    let aliases = match toml_value(text, "alias") {
        Some(v) => v,
        None => return Err(HostError::StorageCorrupt),
    };
    let ips = match toml_value(text, "ip") {
        Some(v) => v,
        None => return Err(HostError::StorageCorrupt),
    };
    let ssh_users = match toml_value(text, "ssh_user") {
        Some(v) => v,
        None => return Err(HostError::StorageCorrupt),
    };
    let pk_paths = match toml_value(text, "pk_path") {
        Some(v) => v,
        None => return Err(HostError::StorageCorrupt),
    };
    let descriptions = match toml_value(text, "description") {
        Some(v) => v,
        None => return Err(HostError::StorageCorrupt),
    };
    Ok(Hosts { aliases, ips, ssh_users, pk_paths, descriptions })
}

/// The text of the store that holds these field lists.
pub fn render_store(hosts: &Hosts) -> (r: String)
    ensures
        r@ == stored_form(hosts@),
{
    let mut r = String::from_str("alias = \"");
    append_escaped(&mut r, hosts.aliases.as_str());
    r.append("\"\nip = \"");
    append_escaped(&mut r, hosts.ips.as_str());
    r.append("\"\nssh_user = \"");
    append_escaped(&mut r, hosts.ssh_users.as_str());
    r.append("\"\npk_path = \"");
    append_escaped(&mut r, hosts.pk_paths.as_str());
    r.append("\"\ndescription = \"");
    append_escaped(&mut r, hosts.descriptions.as_str());
    r.append("\"");
    r
}

} // verus!
