//! Framing of the two JSON blobs the builders emit as opaque strings: the
//! replicated-environment annotation and the docker-config credential
//! payload. Only strings, booleans and fixed object shapes are needed, so
//! the framing is written out here and proved exact.
use vstd::prelude::*;

use crate::model::{EnvironmentVariable, RegistryCredentials};

verus! {

/// The hexadecimal digit for `v`, lower case.
pub open spec fn spec_hex_digit(v: int) -> char {
    "0123456789abcdef"@[v]
}

/// How one character appears inside a JSON string literal: quote and
/// backslash get a backslash escape, the named control characters their
/// short form, every other control character a `\u00XX` escape, and
/// everything else stands as itself.
pub open spec fn spec_json_escape_char(c: char) -> Seq<char> {
    if c == '"' {
        seq!['\\', '"']
    } else if c == '\\' {
        seq!['\\', '\\']
    } else if c == '\n' {
        seq!['\\', 'n']
    } else if c == '\r' {
        seq!['\\', 'r']
    } else if c == '\t' {
        seq!['\\', 't']
    } else if c as u32 == 8 {
        seq!['\\', 'b']
    } else if c as u32 == 12 {
        seq!['\\', 'f']
    } else if (c as u32) < 32 {
        seq!['\\', 'u', '0', '0', spec_hex_digit(c as u32 as int / 16), spec_hex_digit(c as u32 as int % 16)]
    } else {
        seq![c]
    }
}

pub open spec fn spec_json_escape(s: Seq<char>) -> Seq<char>
    decreases s.len(),
{
    if s.len() == 0 {
        Seq::empty()
    } else {
        spec_json_escape(s.drop_last()) + spec_json_escape_char(s.last())
    }
}

/// A JSON string literal: the escaped characters between quotes.
pub open spec fn spec_json_string(s: Seq<char>) -> Seq<char> {
    seq!['"'] + spec_json_escape(s) + seq!['"']
}

pub open spec fn spec_json_bool(b: bool) -> Seq<char> {
    if b {
        "true"@
    } else {
        "false"@
    }
}

/// Escapes `s` for use inside a JSON string literal.
pub fn json_escape(s: &str) -> (r: String)
    ensures
        r@ == spec_json_escape(s@),
{
    let n = s.unicode_len();
    let mut r = String::new();
    let mut i: usize = 0;
    proof {
        assert(spec_json_escape(s@.take(0)) =~= Seq::<char>::empty());
    }
    while i < n
        invariant
            i <= n,
            n == s@.len(),
            r@ == spec_json_escape(s@.take(i as int)),
        decreases n - i,
    {
        let c = s.get_char(i);
        let u = c as u32;
        if c == '"' {
            r.append("\\\"");
            proof {
                reveal_strlit("\\\"");
                assert("\\\""@ =~= spec_json_escape_char(s@[i as int]));
            }
        } else if c == '\\' {
            r.append("\\\\");
            proof {
                reveal_strlit("\\\\");
                assert("\\\\"@ =~= spec_json_escape_char(s@[i as int]));
            }
        } else if c == '\n' {
            r.append("\\n");
            proof {
                reveal_strlit("\\n");
                assert("\\n"@ =~= spec_json_escape_char(s@[i as int]));
            }
        } else if c == '\r' {
            r.append("\\r");
            proof {
                reveal_strlit("\\r");
                assert("\\r"@ =~= spec_json_escape_char(s@[i as int]));
            }
        } else if c == '\t' {
            r.append("\\t");
            proof {
                reveal_strlit("\\t");
                assert("\\t"@ =~= spec_json_escape_char(s@[i as int]));
            }
        } else if u == 8 {
            r.append("\\b");
            proof {
                reveal_strlit("\\b");
                assert("\\b"@ =~= spec_json_escape_char(s@[i as int]));
            }
        } else if u == 12 {
            r.append("\\f");
            proof {
                reveal_strlit("\\f");
                assert("\\f"@ =~= spec_json_escape_char(s@[i as int]));
            }
        } else if u < 32 {
            r.append("\\u00");
            let hex = "0123456789abcdef";
            let hi = (u / 16) as usize;
            let lo = (u % 16) as usize;
            proof {
                reveal_strlit("0123456789abcdef");
            }
            let hc = hex.substring_char(hi, hi + 1);
            r.append(hc);
            let lc = hex.substring_char(lo, lo + 1);
            r.append(lc);
            proof {
                reveal_strlit("\\u00");
                assert(hex@.subrange(hi as int, hi + 1) =~= seq![spec_hex_digit(u as int / 16)]);
                assert(hex@.subrange(lo as int, lo + 1) =~= seq![spec_hex_digit(u as int % 16)]);
                assert("\\u00"@ + seq![spec_hex_digit(u as int / 16)] + seq![
                    spec_hex_digit(u as int % 16),
                ] =~= spec_json_escape_char(s@[i as int]));
            }
        } else {
            let piece = s.substring_char(i, i + 1);
            r.append(piece);
            proof {
                assert(s@.subrange(i as int, i + 1) =~= seq![s@[i as int]]);
                assert(seq![s@[i as int]] =~= spec_json_escape_char(s@[i as int]));
            }
        }
        proof {
            assert(s@.take(i + 1).drop_last() =~= s@.take(i as int));
            assert(s@.take(i + 1).last() == s@[i as int]);
        }
        i += 1;
    }
    proof {
        assert(s@.take(n as int) =~= s@);
    }
    r
}

/// Appends the JSON string literal for `s` to `out`.
pub fn append_json_string(out: &mut String, s: &str)
    ensures
        final(out)@ == old(out)@ + spec_json_string(s@),
{
    out.append("\"");
    let e = json_escape(s);
    out.append(e.as_str());
    out.append("\"");
    proof {
        reveal_strlit("\"");
        assert("\""@ =~= seq!['"']);
        assert(old(out)@ + "\""@ + spec_json_escape(s@) + "\""@ =~= old(out)@ + spec_json_string(
            s@,
        ));
    }
}

/// Appends `true` or `false`.
pub fn append_json_bool(out: &mut String, b: bool)
    ensures
        final(out)@ == old(out)@ + spec_json_bool(b),
{
    if b {
        out.append("true");
    } else {
        out.append("false");
    }
}

/// One member of the replicated-environment object:
/// `"key":{"value":…,"templated":…,"replicate":…}`.
pub open spec fn spec_replicated_entry(v: EnvironmentVariable) -> Seq<char> {
    spec_json_string(v.key@) + ":{\"value\":"@ + spec_json_string(v.value@) + ",\"templated\":"@
        + spec_json_bool(v.templated) + ",\"replicate\":"@ + spec_json_bool(v.replicate) + "}"@
}

/// Whether any variable in the list asks to be replicated.
pub open spec fn spec_any_replicated(env: Seq<EnvironmentVariable>) -> bool {
    exists|i: int| 0 <= i < env.len() && (#[trigger] env[i]).replicate
}

/// The members for the replicated subset of `env`, in input order, joined
/// with commas.
pub open spec fn spec_replicated_members(env: Seq<EnvironmentVariable>) -> Seq<char>
    decreases env.len(),
{
    if env.len() == 0 {
        Seq::empty()
    } else {
        let rest = spec_replicated_members(env.drop_last());
        if !env.last().replicate {
            rest
        } else if !spec_any_replicated(env.drop_last()) {
            spec_replicated_entry(env.last())
        } else {
            rest + ","@ + spec_replicated_entry(env.last())
        }
    }
}

/// The whole replicated-environment annotation value.
pub open spec fn spec_replicated_env_json(env: Seq<EnvironmentVariable>) -> Seq<char> {
    "{"@ + spec_replicated_members(env) + "}"@
}

/// With nothing replicated there are no members.
proof fn lemma_no_replicated_members_empty(env: Seq<EnvironmentVariable>)
    requires
        !spec_any_replicated(env),
    ensures
        spec_replicated_members(env) =~= Seq::<char>::empty(),
    decreases env.len(),
{
    if env.len() > 0 {
        assert(!env[env.len() - 1].replicate);
        assert(!spec_any_replicated(env.drop_last())) by {
            if spec_any_replicated(env.drop_last()) {
                let w = choose|k: int|
                    0 <= k < env.drop_last().len() && (#[trigger] env.drop_last()[k]).replicate;
                assert(env[w].replicate);
            }
        }
        lemma_no_replicated_members_empty(env.drop_last());
    }
}

fn append_replicated_entry(out: &mut String, v: &EnvironmentVariable)
    ensures
        final(out)@ == old(out)@ + spec_replicated_entry(*v),
{
    append_json_string(out, v.key.as_str());
    out.append(":{\"value\":");
    append_json_string(out, v.value.as_str());
    out.append(",\"templated\":");
    append_json_bool(out, v.templated);
    out.append(",\"replicate\":");
    append_json_bool(out, v.replicate);
    out.append("}");
}

/// Serializes the replicated subset of `env` as the annotation's JSON
/// object, or reports that no variable is replicated.
pub fn replicated_env_json(env: &Vec<EnvironmentVariable>) -> (r: Option<String>)
    ensures
        match r {
            Some(s) => spec_any_replicated(env@) && s@ == spec_replicated_env_json(env@),
            None => !spec_any_replicated(env@),
        },
{
    let mut members = String::new();
    let mut any = false;
    let mut i: usize = 0;
    let n = env.len();
    proof {
        assert(spec_replicated_members(env@.take(0)) =~= Seq::<char>::empty());
        assert(!spec_any_replicated(env@.take(0)));
    }
    while i < n
        invariant
            i <= n,
            n == env@.len(),
            any == spec_any_replicated(env@.take(i as int)),
            members@ == spec_replicated_members(env@.take(i as int)),
        decreases n - i,
    {
        proof {
            assert(env@.take(i + 1).drop_last() =~= env@.take(i as int));
            assert(env@.take(i + 1).last() == env@[i as int]);
        }
        if env[i].replicate {
            proof {
                if !any {
                    lemma_no_replicated_members_empty(env@.take(i as int));
                }
            }
            if any {
                members.append(",");
            }
            append_replicated_entry(&mut members, &env[i]);
            any = true;
            proof {
                assert(env@.take(i + 1)[i as int].replicate);
                assert(spec_any_replicated(env@.take(i + 1)));
                assert(members@ =~= spec_replicated_members(env@.take(i + 1)));
            }
        } else {
            proof {
                if spec_any_replicated(env@.take(i + 1)) {
                    let w = choose|k: int|
                        0 <= k < i + 1 && (#[trigger] env@.take(i + 1)[k]).replicate;
                    assert(w < i);
                    assert(env@.take(i as int)[w].replicate);
                }
            }
        }
        i += 1;
    }
    proof {
        assert(env@.take(n as int) =~= env@);
    }
    if !any {
        return None;
    }
    let mut r = String::from_str("{");
    r.append(members.as_str());
    r.append("}");
    Some(r)
}

/// One member of the `auths` object:
/// `"registry":{"username":…,"password":…}`.
pub open spec fn spec_auth_entry(c: RegistryCredentials) -> Seq<char> {
    spec_json_string(c.registry@) + ":{\"username\":"@ + spec_json_string(c.username@)
        + ",\"password\":"@ + spec_json_string(c.password@) + "}"@
}

/// The `auths` members in input order, joined with commas.
pub open spec fn spec_auth_members(cs: Seq<RegistryCredentials>) -> Seq<char>
    decreases cs.len(),
{
    if cs.len() == 0 {
        Seq::empty()
    } else if cs.len() == 1 {
        spec_auth_entry(cs.last())
    } else {
        spec_auth_members(cs.drop_last()) + ","@ + spec_auth_entry(cs.last())
    }
}

/// The docker-config payload: one `auths` member per registry, in input
/// order.
pub open spec fn spec_docker_config_json(cs: Seq<RegistryCredentials>) -> Seq<char> {
    "{\"auths\":{"@ + spec_auth_members(cs) + "}}"@
}

fn append_auth_entry(out: &mut String, c: &RegistryCredentials)
    ensures
        final(out)@ == old(out)@ + spec_auth_entry(*c),
{
    append_json_string(out, c.registry.as_str());
    out.append(":{\"username\":");
    append_json_string(out, c.username.as_str());
    out.append(",\"password\":");
    append_json_string(out, c.password.as_str());
    out.append("}");
}

/// Serializes registry credentials as the docker-config JSON blob.
pub fn docker_config_json(cs: &Vec<RegistryCredentials>) -> (r: String)
    ensures
        r@ == spec_docker_config_json(cs@),
{
    let mut r = String::from_str("{\"auths\":{");
    let mut i: usize = 0;
    let n = cs.len();
    let ghost prefix = r@;
    proof {
        assert(spec_auth_members(cs@.take(0)) =~= Seq::<char>::empty());
    }
    while i < n
        invariant
            i <= n,
            n == cs@.len(),
            prefix == "{\"auths\":{"@,
            r@ == prefix + spec_auth_members(cs@.take(i as int)),
        decreases n - i,
    {
        proof {
            assert(cs@.take(i + 1).drop_last() =~= cs@.take(i as int));
            assert(cs@.take(i + 1).last() == cs@[i as int]);
        }
        if i > 0 {
            r.append(",");
        }
        append_auth_entry(&mut r, &cs[i]);
        i += 1;
    }
    proof {
        assert(cs@.take(n as int) =~= cs@);
    }
    r.append("}}");
    r
}

} // verus!
