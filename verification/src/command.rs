//! Shell-safe command assembly for the exec channel: single-quote quoting,
//! the spawn command line built from a process configuration, and the short
//! coreutils command lines the filesystem backend runs for operations SFTP
//! does not expose (copy, hard link, recursive remove, recursive mkdir).

use vstd::prelude::*;
use vstd::string::*;
use crate::bytes::take_bytes;
use crate::executor::{LinuxProcessConfiguration, LinuxProcessError};

verus! {

/// How one character appears inside a single-quoted shell word: a single
/// quote ends the word, emits an escaped quote, and reopens the word; every
/// other character stands for itself.
pub open spec fn escaped_char(c: char) -> Seq<char> {
    if c == '\'' {
        seq!['\'', '\\', '\'', '\'']
    } else {
        seq![c]
    }
}

/// The body of a single-quoted shell word for `s`.
pub open spec fn escaped(s: Seq<char>) -> Seq<char>
    decreases s.len(),
{
    if s.len() == 0 {
        Seq::empty()
    } else {
        escaped(s.drop_last()) + escaped_char(s.last())
    }
}

/// The single-quoted shell word that the peer's shell reads back as exactly
/// `s`, whatever `s` holds.
pub open spec fn quoted(s: Seq<char>) -> Seq<char> {
    seq!['\''] + escaped(s) + seq!['\'']
}

/// Quotes one shell word: wraps it in single quotes, escaping any single
/// quote it holds.
pub fn quote_arg(s: &str) -> (r: String)
    ensures
        r@ == quoted(s@),
{
    let mut out = String::from_str("'");
    proof {
        reveal_strlit("'");
        assert(out@ =~= seq!['\'']);
    }
    let n = s.unicode_len();
    let mut i: usize = 0;
    while i < n
        invariant
            n == s@.len(),
            0 <= i <= n,
            out@ == seq!['\''] + escaped(s@.take(i as int)),
        decreases n - i,
    {
        let c = s.get_char(i);
        if c == '\'' {
            out.append("'\\''");
            proof {
                reveal_strlit("'\\''");
                assert("'\\''"@ =~= seq!['\'', '\\', '\'', '\'']);
            }
        } else {
            let piece = s.substring_char(i, i + 1);
            proof {
                assert(piece@ =~= seq![s@[i as int]]);
            }
            out.append(piece);
        }
        proof {
            assert(s@.take(i + 1).drop_last() =~= s@.take(i as int));
            assert(s@.take(i + 1).last() == s@[i as int]);
            assert(out@ =~= seq!['\''] + escaped(s@.take(i + 1)));
        }
        i += 1;
    }
    proof {
        assert(s@.take(n as int) =~= s@);
    }
    let r = out.concat("'");
    proof {
        reveal_strlit("'");
        assert(r@ =~= quoted(s@));
    }
    r
}

/// One `NAME=value` token of the environment prefix, quoted as a single
/// shell word and followed by a space.
pub open spec fn env_token(k: Seq<char>, v: Seq<char>) -> Seq<char> {
    quoted(k + seq!['='] + v) + seq![' ']
}

/// The environment tokens of a command line, in binding order.
pub open spec fn env_part(envs: Seq<(Seq<char>, Seq<char>)>) -> Seq<char>
    decreases envs.len(),
{
    if envs.len() == 0 {
        Seq::empty()
    } else {
        env_part(envs.drop_last()) + env_token(envs.last().0, envs.last().1)
    }
}

/// The quoted arguments of a command line, each preceded by a space.
pub open spec fn args_part(args: Seq<Seq<char>>) -> Seq<char>
    decreases args.len(),
{
    if args.len() == 0 {
        Seq::empty()
    } else {
        args_part(args.drop_last()) + seq![' '] + quoted(args.last())
    }
}

/// The environment prefix of a command line: nothing when no variable is
/// bound, else `env ` followed by every binding as a quoted token.
pub open spec fn env_prefix(c: LinuxProcessConfiguration) -> Seq<char> {
    if c.envs@.len() == 0 {
        Seq::empty()
    } else {
        seq!['e', 'n', 'v', ' '] + env_part(c.envs.deep_view())
    }
}

/// The single command line that spawns the configured process on the peer:
/// the quoted program and arguments, under the environment prefix, and --
/// when a working directory is set -- entered via `cd <dir> && exec `.
pub open spec fn spec_command(c: LinuxProcessConfiguration) -> Seq<char> {
    let base = env_prefix(c) + quoted(c.program@) + args_part(c.args.deep_view());
    match c.working_dir {
        Some(wd) => seq!['c', 'd', ' '] + quoted(wd@) + seq![
            ' ',
            '&',
            '&',
            ' ',
            'e',
            'x',
            'e',
            'c',
            ' ',
        ] + base,
        None => base,
    }
}

/// Builds the spawn command line for a configuration. Requesting a user,
/// group or process-group id is refused: delivering those to a remote peer
/// would need privileged helpers the abstraction does not assume.
pub fn build_command(config: &LinuxProcessConfiguration) -> (r: Result<String, LinuxProcessError>)
    ensures
        r is Ok <==> (config.user_id is None && config.group_id is None
            && config.process_group_id is None),
        r is Err ==> r == Err::<String, LinuxProcessError>(LinuxProcessError::UnsupportedOperation),
        r matches Ok(s) ==> s@ == spec_command(*config),
{
    if config.user_id.is_some() || config.group_id.is_some() || config.process_group_id.is_some() {
        return Err(LinuxProcessError::UnsupportedOperation);
    }
    let ghost dv = config.envs.deep_view();
    let ghost adv = config.args.deep_view();
    proof {
        assert forall|j: int| 0 <= j < dv.len() implies dv[j] == (
            config.envs@[j].0@,
            config.envs@[j].1@,
        ) by {}
        assert forall|j: int| 0 <= j < adv.len() implies adv[j] == config.args@[j]@ by {}
    }
    let mut cmd = String::new();
    if config.envs.len() > 0 {
        cmd.append("env ");
        proof {
            reveal_strlit("env ");
            assert(cmd@ =~= seq!['e', 'n', 'v', ' '] + env_part(dv.take(0)));
        }
        let n = config.envs.len();
        let mut i: usize = 0;
        while i < n
            invariant
                n == config.envs@.len(),
                dv == config.envs.deep_view(),
                forall|j: int|
                    0 <= j < dv.len() ==> dv[j] == (
                        #[trigger] config.envs@[j].0@,
                        config.envs@[j].1@,
                    ),
                0 <= i <= n,
                cmd@ == seq!['e', 'n', 'v', ' '] + env_part(dv.take(i as int)),
            decreases n - i,
        {
            let mut kv = String::new();
            kv.append(config.envs[i].0.as_str());
            kv.append("=");
            kv.append(config.envs[i].1.as_str());
            proof {
                reveal_strlit("=");
                assert(kv@ =~= dv[i as int].0 + seq!['='] + dv[i as int].1);
            }
            let q = quote_arg(kv.as_str());
            cmd.append(q.as_str());
            cmd.append(" ");
            proof {
                reveal_strlit(" ");
                assert(dv.take(i + 1).drop_last() =~= dv.take(i as int));
                assert(dv.take(i + 1).last() == dv[i as int]);
                assert(cmd@ =~= seq!['e', 'n', 'v', ' '] + env_part(dv.take(i + 1)));
            }
            i += 1;
        }
        proof {
            assert(dv.take(n as int) =~= dv);
            assert(cmd@ == env_prefix(*config));
        }
    } else {
        proof {
            assert(cmd@ =~= env_prefix(*config));
        }
    }
    let ghost with_env = cmd@;
    let q = quote_arg(config.program.as_str());
    cmd.append(q.as_str());
    proof {
        assert(cmd@ =~= env_prefix(*config) + quoted(config.program@) + args_part(adv.take(0)));
    }
    let n2 = config.args.len();
    let mut j: usize = 0;
    while j < n2
        invariant
            n2 == config.args@.len(),
            adv == config.args.deep_view(),
            forall|k: int| 0 <= k < adv.len() ==> adv[k] == #[trigger] config.args@[k]@,
            0 <= j <= n2,
            cmd@ == env_prefix(*config) + quoted(config.program@) + args_part(
                adv.take(j as int),
            ),
        decreases n2 - j,
    {
        cmd.append(" ");
        let qa = quote_arg(config.args[j].as_str());
        cmd.append(qa.as_str());
        proof {
            reveal_strlit(" ");
            assert(adv.take(j + 1).drop_last() =~= adv.take(j as int));
            assert(adv.take(j + 1).last() == adv[j as int]);
            assert(cmd@ =~= env_prefix(*config) + quoted(config.program@) + args_part(
                adv.take(j + 1),
            ));
        }
        j += 1;
    }
    proof {
        assert(adv.take(n2 as int) =~= adv);
    }
    match &config.working_dir {
        None => Ok(cmd),
        Some(wd) => {
            let mut full = String::from_str("cd ");
            proof {
                reveal_strlit("cd ");
                assert(full@ =~= seq!['c', 'd', ' ']);
            }
            let qw = quote_arg(wd.as_str());
            full.append(qw.as_str());
            full.append(" && exec ");
            proof {
                reveal_strlit(" && exec ");
                assert(" && exec "@ =~= seq![' ', '&', '&', ' ', 'e', 'x', 'e', 'c', ' ']);
            }
            full.append(cmd.as_str());
            proof {
                assert(full@ =~= spec_command(*config));
            }
            Ok(full)
        },
    }
}

/// The helper command that copies a file: `cp -- <old> <new>`, both paths
/// quoted, with `--` stopping option parsing.
pub open spec fn spec_copy_command(from: Seq<char>, to: Seq<char>) -> Seq<char> {
    seq!['c', 'p', ' ', '-', '-', ' '] + quoted(from) + seq![' '] + quoted(to)
}

/// The helper command that hard-links a file: `ln -- <src> <dst>`.
pub open spec fn spec_hard_link_command(from: Seq<char>, to: Seq<char>) -> Seq<char> {
    seq!['l', 'n', ' ', '-', '-', ' '] + quoted(from) + seq![' '] + quoted(to)
}

/// The helper command that removes a directory tree: `rm -rf -- <path>`.
pub open spec fn spec_remove_dir_recursive_command(path: Seq<char>) -> Seq<char> {
    seq!['r', 'm', ' ', '-', 'r', 'f', ' ', '-', '-', ' '] + quoted(path)
}

/// The helper command that creates a directory and its ancestors:
/// `mkdir -p -- <path>`.
pub open spec fn spec_create_dir_recursive_command(path: Seq<char>) -> Seq<char> {
    seq!['m', 'k', 'd', 'i', 'r', ' ', '-', 'p', ' ', '-', '-', ' '] + quoted(path)
}

/// Builds `cp -- <old> <new>` with both paths quoted.
pub fn copy_file_command(from_path: &str, to_path: &str) -> (r: String)
    ensures
        r@ == spec_copy_command(from_path@, to_path@),
{
    let mut cmd = String::from_str("cp -- ");
    proof {
        reveal_strlit("cp -- ");
        assert(cmd@ =~= seq!['c', 'p', ' ', '-', '-', ' ']);
    }
    let q1 = quote_arg(from_path);
    cmd.append(q1.as_str());
    cmd.append(" ");
    let q2 = quote_arg(to_path);
    cmd.append(q2.as_str());
    proof {
        reveal_strlit(" ");
        assert(cmd@ =~= spec_copy_command(from_path@, to_path@));
    }
    cmd
}

/// Builds `ln -- <src> <dst>` with both paths quoted.
pub fn hard_link_command(from_path: &str, to_path: &str) -> (r: String)
    ensures
        r@ == spec_hard_link_command(from_path@, to_path@),
{
    let mut cmd = String::from_str("ln -- ");
    proof {
        reveal_strlit("ln -- ");
        assert(cmd@ =~= seq!['l', 'n', ' ', '-', '-', ' ']);
    }
    let q1 = quote_arg(from_path);
    cmd.append(q1.as_str());
    cmd.append(" ");
    let q2 = quote_arg(to_path);
    cmd.append(q2.as_str());
    proof {
        reveal_strlit(" ");
        assert(cmd@ =~= spec_hard_link_command(from_path@, to_path@));
    }
    cmd
}

/// Builds `rm -rf -- <path>` with the path quoted.
pub fn remove_dir_recursive_command(path: &str) -> (r: String)
    ensures
        r@ == spec_remove_dir_recursive_command(path@),
{
    let mut cmd = String::from_str("rm -rf -- ");
    proof {
        reveal_strlit("rm -rf -- ");
        assert(cmd@ =~= seq!['r', 'm', ' ', '-', 'r', 'f', ' ', '-', '-', ' ']);
    }
    let q = quote_arg(path);
    cmd.append(q.as_str());
    cmd
}

/// Builds `mkdir -p -- <path>` with the path quoted.
pub fn create_dir_recursive_command(path: &str) -> (r: String)
    ensures
        r@ == spec_create_dir_recursive_command(path@),
{
    let mut cmd = String::from_str("mkdir -p -- ");
    proof {
        reveal_strlit("mkdir -p -- ");
        assert(cmd@ =~= seq!['m', 'k', 'd', 'i', 'r', ' ', '-', 'p', ' ', '-', '-', ' ']);
    }
    let q = quote_arg(path);
    cmd.append(q.as_str());
    cmd
}

/// How many bytes of peer stderr a helper diagnostic may carry.
pub const STDERR_DIAGNOSTIC_BOUND: usize = 1024;

/// Judges a finished helper command: exit status zero is success; any other
/// status -- or a close without one -- fails, carrying the peer's stderr,
/// truncated to the diagnostic bound, as payload for the I/O error the
/// caller raises.
pub fn helper_exec_result(status_code: Option<i64>, stderr: &[u8]) -> (r: Result<(), Vec<u8>>)
    ensures
        r is Ok <==> status_code == Some(0i64),
        r matches Err(d) ==> (if stderr@.len() <= STDERR_DIAGNOSTIC_BOUND {
            d@ == stderr@
        } else {
            d@ == stderr@.take(STDERR_DIAGNOSTIC_BOUND as int)
        }),
{
    match status_code {
        Some(code) if code == 0 => Ok(()),
        _ => Err(take_bytes(stderr, STDERR_DIAGNOSTIC_BOUND)),
    }
}

} // verus!
