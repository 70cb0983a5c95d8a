//! The plugin's start-up decisions: which log filter applies, where the log file and the
//! schema registry live, and whether a caller presented the server key.
use vstd::prelude::*;

use crate::schema::join_file_spec;
use crate::text::{blank, cat2, cat3, is_blank, str_eq};

verus! {

/// ASCII case-insensitive equality with `off`.
pub open spec fn is_off(s: Seq<char>) -> bool {
    s.len() == 3 && (s[0] == 'o' || s[0] == 'O') && (s[1] == 'f' || s[1] == 'F') && (s[2] == 'f' || s[2] == 'F')
}

fn off(s: &str) -> (r: bool)
    ensures
        r == is_off(s@),
{
    if s.unicode_len() != 3 {
        return false;
    }
    let a = s.get_char(0);
    let b = s.get_char(1);
    let c = s.get_char(2);
    (a == 'o' || a == 'O') && (b == 'f' || b == 'F') && (c == 'f' || c == 'F')
}

/// The log filter: `RUST_LOG` when it is set, not blank and not `off`; else `LOG_LEVEL`
/// (`INFO` when unset), except that a blank or `off` level turns logging off.
pub open spec fn log_filter_spec(rust_log: Option<Seq<char>>, log_level: Option<Seq<char>>) -> Seq<char> {
    match rust_log {
        Some(v) if !blank(v) && !is_off(v) => v,
        _ => {
            let level = match log_level {
                Some(l) => l,
                None => "INFO"@,
            };
            if blank(level) || is_off(level) {
                "off"@
            } else {
                level
            }
        },
    }
}

/// The log filter directive from the `RUST_LOG` and `LOG_LEVEL` settings (see `log_filter_spec`).
pub fn log_filter_directive(rust_log: Option<&str>, log_level: Option<&str>) -> (r: String)
    ensures
        r@ == log_filter_spec(
            match rust_log { Some(v) => Some(v@), None => None },
            match log_level { Some(l) => Some(l@), None => None },
        ),
{
    if let Some(v) = rust_log {
        if !is_blank(v) && !off(v) {
            return v.to_owned();
        }
    }
    let level: &str = match log_level {
        Some(l) => l,
        None => "INFO",
    };
    proof {
        reveal_strlit("INFO");
    }
    if is_blank(level) || off(level) {
        String::from_str("off")
    } else {
        level.to_owned()
    }
}

/// The directory of the log file: `PACT_PLUGIN_DIR` when set; else the directory of the
/// running executable, when it is known (none when the executable has no parent); else
/// `$HOME/.pact/plugins/graphql-0.1.0`; else none.
pub open spec fn log_dir_spec(
    plugin_dir: Option<Seq<char>>,
    exe_parent: Option<Option<Seq<char>>>,
    home: Option<Seq<char>>,
) -> Option<Seq<char>> {
    match plugin_dir {
        Some(d) => Some(d),
        None => match exe_parent {
            Some(p) => p,
            None => match home {
                Some(h) => Some(join_file_spec(join_file_spec(join_file_spec(h, ".pact"@), "plugins"@), "graphql-0.1.0"@)),
                None => None,
            },
        },
    }
}

fn join(root: &str, name: &str) -> (r: String)
    ensures
        r@ == join_file_spec(root@, name@),
{
    let n = root.unicode_len();
    if n == 0 {
        name.to_owned()
    } else if root.get_char(n - 1) == '/' {
        cat2(root, name)
    } else {
        cat3(root, "/", name)
    }
}

/// Where the log file goes (see `log_dir_spec`); `exe_parent` is `None` when the executable's
/// path is unknown, `Some(None)` when it has no parent directory.
pub fn log_dir(plugin_dir: Option<&str>, exe_parent: Option<Option<&str>>, home: Option<&str>) -> (r: Option<String>)
    ensures
        match r { Some(s) => Some(s@), None => None::<Seq<char>> } == log_dir_spec(
            match plugin_dir { Some(d) => Some(d@), None => None },
            match exe_parent { Some(Some(p)) => Some(Some(p@)), Some(None) => Some(None), None => None },
            match home { Some(h) => Some(h@), None => None },
        ),
{
    match plugin_dir {
        Some(d) => Some(d.to_owned()),
        None => match exe_parent {
            Some(Some(p)) => Some(p.to_owned()),
            Some(None) => None,
            None => match home {
                Some(h) => {
                    let a = join(h, ".pact");
                    let b = join(a.as_str(), "plugins");
                    Some(join(b.as_str(), "graphql-0.1.0"))
                },
                None => None,
            },
        },
    }
}

/// The root of the schema registry: `PACT_GRAPHQL_PLUGIN_SCHEMA_DIR` when set, else
/// `.pact-graphql-plugin/schemas` under the working directory.
pub fn schema_root(schema_dir: Option<&str>, current_dir: &str) -> (r: String)
    ensures
        r@ == match schema_dir {
            Some(d) => d@,
            None => join_file_spec(current_dir@, ".pact-graphql-plugin/schemas"@),
        },
{
    match schema_dir {
        Some(d) => d.to_owned(),
        None => join(current_dir, ".pact-graphql-plugin/schemas"),
    }
}

/// How a call's `authorization` value compares with the server key.
#[derive(PartialEq, Eq, Structural, Clone, Copy, Debug)]
pub enum KeyCheck {
    Accepted,
    /// A value that is not the server key: "invalid server key".
    Invalid,
    /// No value: "missing server key".
    Missing,
}

pub fn check_server_key(presented: Option<&str>, server_key: &str) -> (r: KeyCheck)
    ensures
        match presented {
            None => r == KeyCheck::Missing,
            Some(t) => r == if t@ == server_key@ { KeyCheck::Accepted } else { KeyCheck::Invalid },
        },
{
    match presented {
        None => KeyCheck::Missing,
        Some(t) => if str_eq(t, server_key) {
            KeyCheck::Accepted
        } else {
            KeyCheck::Invalid
        },
    }
}

} // verus!
