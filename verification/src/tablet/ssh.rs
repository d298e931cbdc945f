//! Connection settings and the order in which authentication is tried.

use vstd::prelude::*;

use crate::text::{append_char, chars_of, string_from_chars};

verus! {

/// How to open an SSH session. `key_file` is a path, possibly starting
/// with `~/`; `timeout_secs` bounds the TCP connect.
#[derive(Debug, Clone)]
pub struct ConnectOptions {
    pub user: String,
    pub password: Option<String>,
    pub key_file: Option<String>,
    pub timeout_secs: u64,
    pub verbose: bool,
}

#[derive(Debug, Clone, Copy, PartialEq, Eq, Structural)]
pub enum AuthMethod {
    Agent,
    KeyFile,
    Password,
}

/// Authentication methods to try, in order: the SSH agent when one is
/// reachable, then the key file when it exists, then the password when one
/// was given. The first that the server accepts ends the attempt.
pub open spec fn spec_auth_attempts(agent: bool, key_file_exists: bool, password: bool) -> Seq<AuthMethod> {
    (if agent {
        seq![AuthMethod::Agent]
    } else {
        Seq::empty()
    }) + (if key_file_exists {
        seq![AuthMethod::KeyFile]
    } else {
        Seq::empty()
    }) + (if password {
        seq![AuthMethod::Password]
    } else {
        Seq::empty()
    })
}

pub fn auth_attempts(agent: bool, key_file_exists: bool, password: bool) -> (r: Vec<AuthMethod>)
    ensures
        r@ == spec_auth_attempts(agent, key_file_exists, password),
{
    let mut r: Vec<AuthMethod> = Vec::new();
    if agent {
        r.push(AuthMethod::Agent);
    }
    if key_file_exists {
        r.push(AuthMethod::KeyFile);
    }
    if password {
        r.push(AuthMethod::Password);
    }
    proof {
        assert(r@ =~= spec_auth_attempts(agent, key_file_exists, password));
    }
    r
}

/// `~/rest` under `home`, as `Path::join` forms it; any other path as is.
pub open spec fn spec_expand_tilde(path: Seq<char>, home: Option<Seq<char>>) -> Seq<char> {
    if path.len() >= 2 && path[0] == '~' && path[1] == '/' && home is Some {
        let rest = path.skip(2);
        let h = home->Some_0;
        if rest.len() > 0 && rest[0] == '/' {
            rest
        } else if h.len() == 0 || h.last() == '/' {
            h + rest
        } else {
            h + seq!['/'] + rest
        }
    } else {
        path
    }
}

/// Expand a leading `~/` with the home directory, when one is known.
pub fn expand_tilde(path: &str, home: Option<&str>) -> (r: String)
    ensures
        r@ == spec_expand_tilde(path@, match home {
            Some(h) => Some(h@),
            None => None,
        }),
{
    let p = chars_of(path);
    let mut r = String::new();
    match home {
        Some(h) => {
            if p.len() >= 2 && p[0] == '~' && p[1] == '/' {
                let rest = string_from_chars(&p, 2, p.len());
                let hc = chars_of(h);
                if p.len() > 2 && p[2] == '/' {
                    r.append(rest.as_str());
                } else if hc.len() == 0 || hc[hc.len() - 1] == '/' {
                    r.append(h);
                    r.append(rest.as_str());
                } else {
                    r.append(h);
                    append_char(&mut r, '/');
                    r.append(rest.as_str());
                }
                proof {
                    assert(p@.subrange(2, p@.len() as int) =~= p@.skip(2));
                    assert(r@ =~= spec_expand_tilde(path@, Some(h@)));
                }
                return r;
            }
        },
        None => {},
    }
    r.append(path);
    proof {
        assert(r@ =~= path@);
    }
    r
}

} // verus!
