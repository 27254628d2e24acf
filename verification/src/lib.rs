//! Garble: an end-to-end encrypted peer-to-peer chat.
//!
//! The verified core of the chat: the wire framing of packets, the session-key
//! cryptography, the command-line address rules, and the decisions of the
//! server's per-client event loop and of the client's connection handshake.

use vstd::prelude::*;

pub mod client;
pub mod crypto;
pub mod message;
pub mod primitives;
pub mod server;

verus! {

/// The port the server listens on, and the client connects to, by default.
pub const DEFAULT_PORT: usize = 4440;

/// The value of a run of decimal digits.
pub open spec fn digits_value(d: Seq<char>) -> nat
    decreases d.len(),
{
    if d.len() == 0 {
        0
    } else {
        digits_value(d.drop_last()) * 10 + ((d.last() as int - '0' as int) as nat)
    }
}

/// Every character is an ASCII decimal digit.
pub open spec fn all_digits(d: Seq<char>) -> bool {
    forall|i: int| 0 <= i < d.len() ==> '0' <= #[trigger] d[i] <= '9'
}

/// What `str::parse::<usize>` accepts: an optional `+`, then at least one ASCII
/// digit and nothing else, of a value that fits in a `usize`.
pub open spec fn usize_from_str(s: Seq<char>) -> Option<usize> {
    let d = if s.len() > 0 && s[0] == '+' {
        s.drop_first()
    } else {
        s
    };
    if d.len() > 0 && all_digits(d) && digits_value(d) <= usize::MAX {
        Some(digits_value(d) as usize)
    } else {
        None
    }
}

/// `str::parse::<usize>`: the number the text spells in decimal.
#[verifier::external_body]
fn parse_usize(s: &str) -> (n: Option<usize>)
    ensures
        n == usize_from_str(s@),
{
    s.parse::<usize>().ok()
}

/// `str::split_once(':')`: the text before and after the first colon.
#[verifier::external_body]
fn split_once_colon(s: &str) -> (parts: Option<(&str, &str)>)
    ensures
        match parts {
            Some((before, after)) => s@ == before@ + seq![':'] + after@ && !before@.contains(':'),
            None => !s@.contains(':'),
        },
{
    s.split_once(':')
}

/// `i` is the position of the first colon of `s`.
pub open spec fn is_first_colon(s: Seq<char>, i: int) -> bool {
    0 <= i < s.len() && s[i] == ':' && !s.take(i).contains(':')
}

/// The text before and after the first colon of `s`; all of `s` and nothing
/// when it has none.
pub open spec fn split_at_colon(s: Seq<char>) -> (Seq<char>, Seq<char>) {
    if exists|i: int| is_first_colon(s, i) {
        let i = choose|i: int| is_first_colon(s, i);
        (s.take(i), s.skip(i + 1))
    } else {
        (s, Seq::empty())
    }
}

/// The address and port texts the arguments give (the first argument being the
/// program's name): none but the program gives empty texts, one more gives
/// `addr[:port]`, and more than that is a usage error (`None`).
pub open spec fn address_texts(args: Seq<Seq<char>>) -> Option<(Seq<char>, Seq<char>)> {
    if args.len() <= 1 {
        Some((Seq::empty(), Seq::empty()))
    } else if args.len() == 2 {
        Some(split_at_colon(args[1]))
    } else {
        None
    }
}

/// The address and port to use: empty texts fall back to the defaults, and a
/// port text must parse as a `usize`; `None` is a usage error.
pub open spec fn command_line_address(
    args: Seq<Seq<char>>,
    default_host: Seq<char>,
    default_port: usize,
) -> Option<(Seq<char>, usize)> {
    match address_texts(args) {
        None => None,
        Some((addr, port)) => {
            let host = if addr.len() > 0 {
                addr
            } else {
                default_host
            };
            if port.len() == 0 {
                Some((host, default_port))
            } else {
                match usize_from_str(port) {
                    Some(n) => Some((host, n)),
                    None => None,
                }
            }
        },
    }
}

/// The command line was not `[addr][:port]`; carries the program's name, for
/// the usage message.
#[derive(Debug)]
pub struct UsageError {
    pub program: Option<String>,
}

/// Reads `[addr][:port]` from the command line `args` (the program's name
/// first), falling back to `default_host` and `default_port` for a part that
/// is missing or empty.
pub fn parse_command_line_args(args: &Vec<String>, default_host: &str, default_port: usize) -> (result:
    Result<(String, usize), UsageError>)
    ensures
        match command_line_address(
            args@.map_values(|a: String| a@),
            default_host@,
            default_port,
        ) {
            Some((host, port)) => result matches Ok((h, p)) && h@ == host && p == port,
            None => result matches Err(e) && match e.program {
                Some(name) => args@.len() > 0 && name@ == args@[0]@,
                None => args@.len() == 0,
            },
        },
{
    let ghost texts = args@.map_values(|a: String| a@);
    let n = args.len();
    let (addr, port): (&str, &str) = if n <= 1 {
        ("", "")
    } else if n == 2 {
        let s = args[1].as_str();
        match split_once_colon(s) {
            Some((a, p)) => {
                proof {
                    let i = a@.len() as int;
                    assert(s@.take(i) =~= a@);
                    assert(s@.skip(i + 1) =~= p@);
                    assert(is_first_colon(s@, i));
                    let j = choose|j: int| is_first_colon(s@, j);
                    if j < i {
                        assert(a@[j] == s@[j]);
                    } else if i < j {
                        assert(s@.take(j)[i] == s@[i]);
                    }
                    assert(texts[1] == s@);
                }
                (a, p)
            },
            None => {
                proof {
                    assert forall|i: int| !is_first_colon(s@, i) by {
                        if is_first_colon(s@, i) {
                            assert(s@.contains(':'));
                        }
                    }
                    assert(texts[1] == s@);
                }
                (s, "")
            },
        }
    } else {
        return Err(UsageError { program: Some(args[0].clone()) });
    };
    proof {
        reveal_strlit("");
    }
    let host: String = if !addr.is_empty() {
        addr.to_owned()
    } else {
        default_host.to_owned()
    };
    if port.is_empty() {
        Ok((host, default_port))
    } else {
        match parse_usize(port) {
            Some(p) => Ok((host, p)),
            None => {
                let program = if n > 0 {
                    Some(args[0].clone())
                } else {
                    None
                };
                Err(UsageError { program })
            },
        }
    }
}

/// Declares `std::io::Error`, the error of reading or writing a connection.
#[verifier::external_type_specification]
#[verifier::external_body]
pub struct ExIoError(std::io::Error);

/// The host and port the `cli` program reads: a host, then optionally a port;
/// a port that is missing, does not parse, or exceeds 65535 gives 3000.
/// `None` for any other number of arguments.
pub open spec fn cli_address(args: Seq<Seq<char>>) -> Option<(Seq<char>, usize)> {
    if args.len() == 2 || args.len() == 3 {
        let port = if args.len() == 3 {
            match usize_from_str(args[2]) {
                Some(p) => if p <= 65535 {
                    p
                } else {
                    3000
                },
                None => 3000,
            }
        } else {
            3000
        };
        Some((args[1], port))
    } else {
        None
    }
}

/// Reads the `cli` program's arguments (the program's name first): a host and
/// an optional port, as [`cli_address`] says.
pub fn cli_host_port(args: &Vec<String>) -> (address: Option<(String, usize)>)
    ensures
        match cli_address(args@.map_values(|a: String| a@)) {
            Some((host, port)) => address matches Some((h, p)) && h@ == host && p == port,
            None => address is None,
        },
{
    let ghost texts = args@.map_values(|a: String| a@);
    let n = args.len();
    if n == 2 || n == 3 {
        let host = args[1].clone();
        let port: usize = if n == 3 {
            assert(texts[2] == args@[2]@);
            match parse_usize(args[2].as_str()) {
                Some(p) => if p <= 65535 {
                    p
                } else {
                    3000
                },
                None => 3000,
            }
        } else {
            3000
        };
        Some((host, port))
    } else {
        None
    }
}

} // verus!
