use vstd::prelude::*;
use crate::text::{chars_of, copy_str, eq_str, strings_view};
use crate::url_parts::opt_chars;

verus! {

/// The socket the command-line client talks to by default.
pub const DEFAULT_SOCKET: &'static str = "/tmp/ped.sock";

/// A control request as the command-line client sends it, with the
/// client's socket. `detail` is the raw detail argument of `emit`.
#[derive(Debug)]
pub struct CliRequest {
    pub socket: String,
    pub method: String,
    pub url: Option<String>,
    pub script: Option<String>,
    pub event_type: Option<String>,
    pub detail: Option<String>,
}

/// Why the client cannot send a request (it then exits with status 2).
#[derive(Debug)]
pub enum CliError {
    /// Print the usage line.
    Usage,
    /// Print this message.
    Message(String),
}

/// A client request as values: socket, method, URL, script, event type
/// and detail.
pub type CliView = (
    Seq<char>,
    Seq<char>,
    Option<Seq<char>>,
    Option<Seq<char>>,
    Option<Seq<char>>,
    Option<Seq<char>>,
);

/// The client's options read from `args[i..]`: `--socket PATH` (the last
/// one wins) and the positional arguments, in order.
pub open spec fn cli_scan(
    args: Seq<Seq<char>>,
    i: int,
    socket: Seq<char>,
    positional: Seq<Seq<char>>,
) -> Result<(Seq<char>, Seq<Seq<char>>), Seq<char>>
    decreases args.len() - i,
{
    if i < 0 || i >= args.len() {
        Ok((socket, positional))
    } else if args[i] == "--socket"@ {
        if i + 1 < args.len() {
            cli_scan(args, i + 2, args[i + 1], positional)
        } else {
            Err("ped: --socket requires a path"@)
        }
    } else {
        cli_scan(args, i + 1, socket, positional.push(args[i]))
    }
}

/// The request for a method and its positional arguments.
pub open spec fn cli_dispatch(socket: Seq<char>, pos: Seq<Seq<char>>) -> Result<CliView, Option<Seq<char>>> {
    if pos.len() == 0 {
        Err(None)
    } else {
        let m = pos[0];
        if m == "status"@ || m == "stop"@ || m == "refresh"@ || m == "reload-config"@ {
            Ok((socket, m, None, None, None, None))
        } else if m == "open"@ {
            if pos.len() > 1 {
                Ok((socket, m, Some(pos[1]), None, None, None))
            } else {
                Err(Some("ped: open requires a URL"@))
            }
        } else if m == "eval"@ {
            if pos.len() > 1 {
                Ok((socket, m, None, Some(pos[1]), None, None))
            } else {
                Err(Some("ped: eval requires JavaScript"@))
            }
        } else if m == "emit"@ {
            if pos.len() > 1 {
                Ok((socket, m, None, None, Some(pos[1]), if pos.len() > 2 { Some(pos[2]) } else { None }))
            } else {
                Err(Some("ped: emit requires an event type"@))
            }
        } else {
            Err(None)
        }
    }
}

/// What the client makes of its arguments (without the program name):
/// the request, or the message to print (`None`: the usage line).
pub open spec fn cli_plan(args: Seq<Seq<char>>) -> Result<CliView, Option<Seq<char>>> {
    match cli_scan(args, 0, DEFAULT_SOCKET@, Seq::empty()) {
        Err(e) => Err(Some(e)),
        Ok((socket, pos)) => cli_dispatch(socket, pos),
    }
}

/// A client outcome as values.
pub open spec fn cli_view(r: Result<CliRequest, CliError>) -> Result<CliView, Option<Seq<char>>> {
    match r {
        Ok(q) => Ok(
            (
                q.socket@,
                q.method@,
                opt_chars(q.url),
                opt_chars(q.script),
                opt_chars(q.event_type),
                opt_chars(q.detail),
            ),
        ),
        Err(CliError::Usage) => Err(None),
        Err(CliError::Message(m)) => Err(Some(m@)),
    }
}

fn message(text: &str) -> (r: Result<CliRequest, CliError>)
    ensures
        cli_view(r) == Err::<CliView, Option<Seq<char>>>(Some(text@)),
{
    Err(CliError::Message(copy_str(text)))
}

fn request(socket: &String, method: &String, url: Option<&String>, script: Option<&String>, event_type: Option<&String>, detail: Option<&String>) -> (r: Result<CliRequest, CliError>)
    ensures
        cli_view(r) == Ok::<CliView, Option<Seq<char>>>(
            (
                socket@,
                method@,
                match url { Some(u) => Some(u@), None => None },
                match script { Some(u) => Some(u@), None => None },
                match event_type { Some(u) => Some(u@), None => None },
                match detail { Some(u) => Some(u@), None => None },
            ),
        ),
{
    Ok(
        CliRequest {
            socket: socket.clone(),
            method: method.clone(),
            url: match url { Some(u) => Some(u.clone()), None => None },
            script: match script { Some(u) => Some(u.clone()), None => None },
            event_type: match event_type { Some(u) => Some(u.clone()), None => None },
            detail: match detail { Some(u) => Some(u.clone()), None => None },
        },
    )
}

/// Reads the client's command line (without the program name):
/// `[--socket PATH] <status|stop|refresh|reload-config|open URL|eval SCRIPT|emit EVENT [JSON_DETAIL]>`.
pub fn parse_cli(args: &Vec<String>) -> (r: Result<CliRequest, CliError>)
    ensures
        cli_view(r) == cli_plan(strings_view(args@)),
{
    let ghost all = strings_view(args@);
    let mut socket = copy_str(DEFAULT_SOCKET);
    let mut positional: Vec<String> = Vec::new();
    let mut i: usize = 0;
    assert(strings_view(positional@) =~= Seq::<Seq<char>>::empty());
    while i < args.len()
        invariant
            all == strings_view(args@),
            i <= args@.len(),
            cli_scan(all, 0, DEFAULT_SOCKET@, Seq::empty()) == cli_scan(
                all,
                i as int,
                socket@,
                strings_view(positional@),
            ),
        decreases args.len() - i,
    {
        let argument = chars_of(args[i].as_str());
        assert(all[i as int] == args@[i as int]@);
        if eq_str(&argument, "--socket") {
            if i + 1 < args.len() {
                assert(all[i + 1] == args@[i + 1]@);
                socket = args[i + 1].clone();
                i = i + 2;
            } else {
                return message("ped: --socket requires a path");
            }
        } else {
            let ghost before = positional@;
            positional.push(args[i].clone());
            assert(strings_view(positional@) =~= strings_view(before).push(all[i as int]));
            i = i + 1;
        }
    }
    let ghost pos = strings_view(positional@);
    if positional.len() == 0 {
        return Err(CliError::Usage);
    }
    assert(pos[0] == positional@[0]@);
    let method = chars_of(positional[0].as_str());
    if eq_str(&method, "status") || eq_str(&method, "stop") || eq_str(&method, "refresh") || eq_str(
        &method,
        "reload-config",
    ) {
        return request(&socket, &positional[0], None, None, None, None);
    }
    if eq_str(&method, "open") {
        if positional.len() > 1 {
            assert(pos[1] == positional@[1]@);
            return request(&socket, &positional[0], Some(&positional[1]), None, None, None);
        }
        return message("ped: open requires a URL");
    }
    if eq_str(&method, "eval") {
        if positional.len() > 1 {
            assert(pos[1] == positional@[1]@);
            return request(&socket, &positional[0], None, Some(&positional[1]), None, None);
        }
        return message("ped: eval requires JavaScript");
    }
    if eq_str(&method, "emit") {
        if positional.len() > 1 {
            assert(pos[1] == positional@[1]@);
            if positional.len() > 2 {
                assert(pos[2] == positional@[2]@);
                return request(
                    &socket,
                    &positional[0],
                    None,
                    None,
                    Some(&positional[1]),
                    Some(&positional[2]),
                );
            }
            return request(&socket, &positional[0], None, None, Some(&positional[1]), None);
        }
        return message("ped: emit requires an event type");
    }
    Err(CliError::Usage)
}

} // verus!

verus! {

proof fn lemma_scan_keeps_socket(
    args: Seq<Seq<char>>,
    i: int,
    socket: Seq<char>,
    positional: Seq<Seq<char>>,
)
    requires
        0 <= i,
        forall|j: int| i <= j < args.len() ==> args[j] != "--socket"@,
    ensures
        cli_scan(args, i, socket, positional) matches Ok(r) ==> r.0 == socket,
    decreases args.len() - i,
{
    if i < args.len() {
        lemma_scan_keeps_socket(args, i + 1, socket, positional.push(args[i]));
    }
}

/// Without `--socket` the client talks to the default socket.
pub proof fn lemma_default_socket(args: Seq<Seq<char>>)
    requires
        forall|j: int| 0 <= j < args.len() ==> args[j] != "--socket"@,
    ensures
        cli_plan(args) matches Ok(v) ==> v.0 == DEFAULT_SOCKET@,
{
    lemma_scan_keeps_socket(args, 0, DEFAULT_SOCKET@, Seq::empty());
}

proof fn lemma_scan_plain(args: Seq<Seq<char>>, i: int, socket: Seq<char>, positional: Seq<Seq<char>>)
    requires
        0 <= i <= args.len(),
        forall|j: int| i <= j < args.len() ==> args[j] != "--socket"@,
    ensures
        cli_scan(args, i, socket, positional) == Ok::<(Seq<char>, Seq<Seq<char>>), Seq<char>>(
            (socket, positional + args.skip(i)),
        ),
    decreases args.len() - i,
{
    if i < args.len() {
        lemma_scan_plain(args, i + 1, socket, positional.push(args[i]));
        assert(positional.push(args[i]) + args.skip(i + 1) =~= positional + args.skip(i));
    } else {
        assert(positional + args.skip(i) =~= positional);
    }
}

/// The methods without arguments (`status`, `stop`, `refresh`,
/// `reload-config`) are always sent: without `--socket`, a command line that
/// begins with one of them is that request to the default socket, whatever
/// follows; with `--socket PATH` first, it goes to `PATH`.
pub proof fn lemma_plain_methods_are_sent(args: Seq<Seq<char>>, path: Seq<char>)
    requires
        args.len() >= 1,
        args[0] == "status"@ || args[0] == "stop"@ || args[0] == "refresh"@ || args[0]
            == "reload-config"@,
        forall|j: int| 0 <= j < args.len() ==> args[j] != "--socket"@,
    ensures
        cli_plan(args) == Ok::<CliView, Option<Seq<char>>>(
            (DEFAULT_SOCKET@, args[0], None, None, None, None),
        ),
        cli_plan(seq!["--socket"@, path] + args) == Ok::<CliView, Option<Seq<char>>>(
            (path, args[0], None, None, None, None),
        ),
{
    lemma_scan_plain(args, 0, DEFAULT_SOCKET@, Seq::empty());
    assert(Seq::<Seq<char>>::empty() + args.skip(0) =~= args);
    let full = seq!["--socket"@, path] + args;
    assert(full[0] == "--socket"@);
    assert(full[1] == path);
    assert forall|j: int| 2 <= j < full.len() implies full[j] != "--socket"@ by {
        assert(full[j] == args[j - 2]);
    }
    lemma_scan_plain(full, 2, path, Seq::empty());
    assert(Seq::<Seq<char>>::empty() + full.skip(2) =~= args);
}

} // verus!
