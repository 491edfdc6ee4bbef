//! Names of endpoint files: the per-session prefix, the file name of one
//! process's endpoint, and which directory entries are endpoints of a session.
use vstd::prelude::*;
use vstd::string::*;

use crate::text::{decimal, ends_with, push_decimal, starts_with};

verus! {

/// What every endpoint file name begins with, before the session part.
pub open spec fn base_prefix() -> Seq<char> {
    "Alacritty-"@
}

/// What every endpoint file name ends with.
pub open spec fn socket_suffix() -> Seq<char> {
    ".sock"@
}

/// A path separator in the session discriminator becomes a dash.
pub open spec fn sanitized(s: Seq<char>) -> Seq<char> {
    s.map_values(|c: char| if c == '/' { '-' } else { c })
}

/// The session discriminator: the Wayland display when set, else the X display,
/// else nothing.
pub open spec fn session_of(wayland_display: Option<Seq<char>>, display: Option<Seq<char>>) -> Seq<char> {
    match wayland_display {
        Some(w) => w,
        None => match display {
            Some(d) => d,
            None => Seq::empty(),
        },
    }
}

/// The prefix shared by all endpoint files of one session.
pub open spec fn prefix_of_session(session: Seq<char>) -> Seq<char> {
    base_prefix() + sanitized(session)
}

/// `<prefix>-<pid>.sock`
pub open spec fn socket_file_name_of(prefix: Seq<char>, pid: nat) -> Seq<char> {
    prefix + seq!['-'] + decimal(pid) + socket_suffix()
}

/// A directory entry is an endpoint of the session with this prefix.
pub open spec fn is_candidate_name(name: Seq<char>, prefix: Seq<char>) -> bool {
    prefix.is_prefix_of(name) && socket_suffix().is_suffix_of(name)
}

/// `dir` joined with a relative `name`, with one separator between them.
pub open spec fn joined(dir: Seq<char>, name: Seq<char>) -> Seq<char> {
    if dir.len() == 0 || dir.last() == '/' {
        dir + name
    } else {
        dir + seq!['/'] + name
    }
}

pub open spec fn opt_view(o: Option<String>) -> Option<Seq<char>> {
    match o {
        Some(s) => Some(s@),
        None => None,
    }
}

/// Copy of `s` with every `/` turned into `-`.
pub fn sanitize(s: &str) -> (r: String)
    ensures
        r@ == sanitized(s@),
{
    let n = s.unicode_len();
    let mut out = String::new();
    let mut i: usize = 0;
    proof {
        reveal_strlit("-");
    }
    while i < n
        invariant
            n == s@.len(),
            i <= n,
            out@ == sanitized(s@.subrange(0, i as int)),
        decreases n - i,
    {
        let c = s.get_char(i);
        if c == '/' {
            proof {
                reveal_strlit("-");
            }
            out.append("-");
        } else {
            let one = s.substring_char(i, i + 1);
            assert(one@ =~= seq![c]);
            out.append(one);
        }
        assert(sanitized(s@.subrange(0, i + 1)) =~= sanitized(s@.subrange(0, i as int)).push(
            if c == '/' { '-' } else { c },
        ));
        i = i + 1;
    }
    assert(s@.subrange(0, n as int) =~= s@);
    out
}

/// File prefix matching the endpoints of the current display session.
///
/// The caller reads `WAYLAND_DISPLAY` and `DISPLAY` from the environment; an
/// unset (or unreadable) variable is `None`.
pub fn socket_prefix(wayland_display: Option<String>, display: Option<String>) -> (r: String)
    ensures
        r@ == prefix_of_session(session_of(opt_view(wayland_display), opt_view(display))),
{
    let session = match wayland_display {
        Some(w) => w,
        None => match display {
            Some(d) => d,
            None => String::new(),
        },
    };
    let mut out = String::from_str("Alacritty-");
    let tail = sanitize(session.as_str());
    out.append(tail.as_str());
    out
}

/// File name of the endpoint that the process `pid` listens on.
pub fn socket_file_name(prefix: &str, pid: u32) -> (r: String)
    ensures
        r@ == socket_file_name_of(prefix@, pid as nat),
{
    let mut out = String::from_str(prefix);
    proof {
        reveal_strlit("-");
    }
    out.append("-");
    push_decimal(&mut out, pid as u128);
    out.append(".sock");
    out
}

/// Whether a directory entry named `name` is an endpoint of the session whose
/// prefix is `prefix`.
pub fn is_socket_file(name: &str, prefix: &str) -> (r: bool)
    ensures
        r == is_candidate_name(name@, prefix@),
{
    starts_with(name, prefix) && ends_with(name, ".sock")
}

/// Path of the entry `name` inside the directory `dir`.
pub fn join_path(dir: &str, name: &str) -> (r: String)
    ensures
        r@ == joined(dir@, name@),
{
    let n = dir.unicode_len();
    let mut out = String::from_str(dir);
    if n > 0 && dir.get_char(n - 1) == '/' {
        out.append(name);
    } else {
        if n > 0 {
            proof {
                reveal_strlit("/");
            }
            out.append("/");
        }
        out.append(name);
    }
    out
}

} // verus!

verus! {

/// Two sessions whose sanitized discriminators are not prefixes of one
/// another never see each other's endpoint files when they scan the directory.
pub proof fn lemma_sessions_isolated(session1: Seq<char>, session2: Seq<char>, pid: nat)
    requires
        !sanitized(session1).is_prefix_of(sanitized(session2)),
        !sanitized(session2).is_prefix_of(sanitized(session1)),
    ensures
        !is_candidate_name(socket_file_name_of(prefix_of_session(session2), pid), prefix_of_session(session1)),
        !is_candidate_name(socket_file_name_of(prefix_of_session(session1), pid), prefix_of_session(session2)),
{
    lemma_prefix_apart(sanitized(session1), sanitized(session2), pid);
    lemma_prefix_apart(sanitized(session2), sanitized(session1), pid);
}

proof fn lemma_prefix_apart(a: Seq<char>, b: Seq<char>, pid: nat)
    requires
        !a.is_prefix_of(b),
        !b.is_prefix_of(a),
    ensures
        !(base_prefix() + a).is_prefix_of(socket_file_name_of(base_prefix() + b, pid)),
{
    let p = base_prefix() + a;
    let n = socket_file_name_of(base_prefix() + b, pid);
    let m = base_prefix().len();
    assert(n =~= base_prefix() + b + (seq!['-'] + decimal(pid) + socket_suffix()));
    if p.is_prefix_of(n) {
        if a.len() <= b.len() {
            assert forall|k: int| 0 <= k < a.len() implies a[k] == b.subrange(0, a.len() as int)[k] by {
                assert(p[m + k] == n[m + k]);
            }
            assert(a =~= b.subrange(0, a.len() as int));
        } else {
            assert forall|k: int| 0 <= k < b.len() implies b[k] == a.subrange(0, b.len() as int)[k] by {
                assert(p[m + k] == n[m + k]);
            }
            assert(b =~= a.subrange(0, b.len() as int));
        }
    }
}

} // verus!

verus! {

/// The endpoint a listener binds: the explicit path when one is given, else
/// `<dir>/<prefix>-<pid>.sock`.
pub open spec fn endpoint_path_of(explicit: Option<Seq<char>>, dir: Seq<char>, prefix: Seq<char>, pid: nat) -> Seq<char> {
    match explicit {
        Some(p) => p,
        None => joined(dir, socket_file_name_of(prefix, pid)),
    }
}

/// Path of the endpoint that the process `pid` listens on.
pub fn socket_path(explicit: Option<String>, dir: &str, prefix: &str, pid: u32) -> (r: String)
    ensures
        r@ == endpoint_path_of(opt_view(explicit), dir@, prefix@, pid as nat),
{
    match explicit {
        Some(p) => p,
        None => {
            let name = socket_file_name(prefix, pid);
            join_path(dir, name.as_str())
        },
    }
}

} // verus!
