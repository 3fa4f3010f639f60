//! What the command line needs of the commands: the dispatch by name, the
//! level of logging, and the URL under which a command is forwarded to the
//! HTTP interface.

use vstd::prelude::*;
use vstd::string::StringExecFns;
use vstd::string::StringSliceAdditionalSpecFns;
use vstd::utf8::encode_utf8;
use crate::api::{command_names, ArgumentSpec, Command};
use crate::config::strings_view;
use crate::config::spec::{index_from, index_of};
use crate::text::{decimal, decimal_string, push_char};

verus! {

/// How much is logged.
#[derive(Clone, Copy, Debug, PartialEq, Eq)]
pub enum LogLevel {
    Error,
    Warn,
    Info,
    Debug,
    Trace,
}

/// The level of logging for the number of times that verbosity was asked for.
pub open spec fn spec_log_level(occurrences: int) -> LogLevel {
    if occurrences == 0 {
        LogLevel::Error
    } else if occurrences == 1 {
        LogLevel::Warn
    } else if occurrences == 2 {
        LogLevel::Info
    } else if occurrences == 3 {
        LogLevel::Debug
    } else {
        LogLevel::Trace
    }
}

/// The level of logging for the number of times that verbosity was asked
/// for: errors only without it, then warnings, information, debugging, and
/// from four times on everything.
pub fn log_level(occurrences: u64) -> (res: LogLevel)
    ensures
        res == spec_log_level(occurrences as int),
{
    if occurrences == 0 {
        LogLevel::Error
    } else if occurrences == 1 {
        LogLevel::Warn
    } else if occurrences == 2 {
        LogLevel::Info
    } else if occurrences == 3 {
        LogLevel::Debug
    } else {
        LogLevel::Trace
    }
}

/// The index of the first command called `name`.
pub fn find_command(commands: &Vec<Command>, name: &str) -> (res: Option<usize>)
    ensures
        match res {
            Some(i) => index_of(command_names(commands@), name@) == Some(i as int) && i
                < commands.len(),
            None => index_of(command_names(commands@), name@) is None,
        },
{
    let mut i: usize = 0;
    while i < commands.len()
        invariant
            i <= commands.len(),
            index_of(command_names(commands@), name@) == index_from(
                command_names(commands@),
                name@,
                i as int,
            ),
        decreases commands.len() - i,
    {
        proof {
            assert(command_names(commands@)[i as int] == commands[i as int].name@);
        }
        if *commands[i].name == *name {
            return Some(i);
        }
        i += 1;
    }
    None
}

/// The subcommands that the names `i..` lead through from the command `cmd`,
/// which was reached by `path`: each name is looked up among the
/// subcommands of the command before it, and the first name that is none of
/// them ends the way.
pub open spec fn resolved_from(cmd: Command, names: Seq<Seq<char>>, i: int, path: Seq<usize>)
    -> Seq<usize>
    decreases names.len() - i,
{
    if i < 0 || i >= names.len() {
        path
    } else {
        match index_of(command_names(cmd.commands@), names[i]) {
            Some(j) => if 0 <= j < cmd.commands.len() {
                resolved_from(cmd.commands[j], names, i + 1, path.push(j as usize))
            } else {
                path
            },
            None => path,
        }
    }
}

/// Finds the command that the subcommands given on the command line lead
/// to: for each name that was taken, the index of the subcommand. The command
/// at the end of the way is the one to run.
pub fn resolve(root: &Command, names: &Vec<String>) -> (res: Vec<usize>)
    ensures
        res@ == resolved_from(*root, strings_view(names@), 0, Seq::empty()),
{
    let ghost all = strings_view(names@);
    let mut cmd: &Command = root;
    let mut path: Vec<usize> = Vec::new();
    let mut i: usize = 0;
    while i < names.len()
        invariant
            i <= names.len(),
            all == strings_view(names@),
            resolved_from(*root, all, 0, Seq::empty()) == resolved_from(
                *cmd,
                all,
                i as int,
                path@,
            ),
        decreases names.len() - i,
    {
        assert(all[i as int] == names[i as int]@);
        match find_command(&cmd.commands, names[i].as_str()) {
            Some(j) => {
                path.push(j);
                cmd = &cmd.commands[j];
            },
            None => {
                return path;
            },
        }
        i += 1;
    }
    path
}

/// The command that the indices `i..` of a way of subcommands lead to from
/// the command `cmd`, if each of them names a subcommand.
pub open spec fn command_on(cmd: Command, path: Seq<usize>, i: int) -> Option<Command>
    decreases path.len() - i,
{
    if i < 0 || i >= path.len() {
        Some(cmd)
    } else if path[i] < cmd.commands.len() {
        command_on(cmd.commands[path[i] as int], path, i + 1)
    } else {
        None
    }
}

/// The command that a way of subcommands leads to from the root, if every
/// index on the way names a subcommand.
pub fn command_at<'a>(root: &'a Command, path: &Vec<usize>) -> (res: Option<&'a Command>)
    ensures
        match res {
            Some(c) => command_on(*root, path@, 0) == Some(*c),
            None => command_on(*root, path@, 0) is None,
        },
{
    let mut cmd: &Command = root;
    let mut i: usize = 0;
    while i < path.len()
        invariant
            i <= path.len(),
            command_on(*root, path@, 0) == command_on(*cmd, path@, i as int),
        decreases path.len() - i,
    {
        if path[i] >= cmd.commands.len() {
            return None;
        }
        cmd = &cmd.commands[path[i]];
        i += 1;
    }
    Some(cmd)
}

/// True for the bytes that stand for themselves in a query string: the
/// ASCII letters and digits, the space, and `*`, `-`, `.` and `_`.
pub open spec fn stands_for_itself(b: u8) -> bool {
    (0x30 <= b && b <= 0x39) || (0x41 <= b && b <= 0x5a) || (0x61 <= b && b <= 0x7a) || b == 0x20
        || b == 0x2a || b == 0x2d || b == 0x2e || b == 0x5f
}

/// The hexadecimal digit of a number below 16, in upper case.
pub open spec fn hex_digit(n: int) -> char {
    if n < 10 {
        (0x30 + n) as char
    } else {
        (0x41 + n - 10) as char
    }
}

/// One byte in a query string: itself, or a percent sign and its two
/// hexadecimal digits.
pub open spec fn encoded_byte(b: u8) -> Seq<char> {
    if stands_for_itself(b) {
        seq![b as char]
    } else {
        seq!['%', hex_digit(b as int / 16), hex_digit(b as int % 16)]
    }
}

/// The first `n` bytes in a query string.
pub open spec fn encoded_bytes(bytes: Seq<u8>, n: int) -> Seq<char>
    decreases n,
{
    if n <= 0 {
        Seq::empty()
    } else {
        encoded_bytes(bytes, n - 1) + encoded_byte(bytes[n - 1])
    }
}

/// A text in a query string: the bytes of its UTF-8 form, each percent-encoded
/// unless it stands for itself.
pub open spec fn query_encoded(s: Seq<char>) -> Seq<char> {
    encoded_bytes(encode_utf8(s), encode_utf8(s).len() as int)
}

/// The hexadecimal digit of a number below 16, in upper case.
fn hex_char(n: u8) -> (res: char)
    requires
        n < 16,
    ensures
        res == hex_digit(n as int),
{
    if n < 10 {
        (0x30u8 + n) as char
    } else {
        (0x41u8 + n - 10) as char
    }
}

/// Percent-encodes a text for a query string.
pub fn query_encode(s: &str) -> (res: String)
    ensures
        res@ == query_encoded(s@),
{
    let bytes = s.as_bytes();
    let mut out = String::new();
    let mut i: usize = 0;
    while i < bytes.len()
        invariant
            i <= bytes.len(),
            bytes@ == encode_utf8(s@),
            out@ == encoded_bytes(bytes@, i as int),
        decreases bytes.len() - i,
    {
        let b = bytes[i];
        let keep = (0x30 <= b && b <= 0x39) || (0x41 <= b && b <= 0x5a) || (0x61 <= b && b
            <= 0x7a) || b == 0x20 || b == 0x2a || b == 0x2d || b == 0x2e || b == 0x5f;
        let ghost before = out@;
        if keep {
            push_char(&mut out, b as char);
            proof {
                assert(out@ =~= before + encoded_byte(b));
            }
        } else {
            push_char(&mut out, '%');
            push_char(&mut out, hex_char(b / 16));
            push_char(&mut out, hex_char(b % 16));
            proof {
                assert(out@ =~= before + encoded_byte(b));
            }
        }
        i += 1;
    }
    out
}

/// What the command line holds for one argument: its values, if it was
/// given with any; the number of times it occurs; and whether it is there.
#[derive(Debug, PartialEq, Eq)]
pub struct ArgMatch {
    pub values: Option<Vec<String>>,
    pub occurrences: u64,
    pub present: bool,
}

/// The text of a truth value.
pub open spec fn truth(b: bool) -> Seq<char> {
    if b {
        "true"@
    } else {
        "false"@
    }
}

/// The parameter of index `i` of an argument that takes several values.
pub open spec fn indexed_param(name: Seq<char>, i: int, value: Seq<char>) -> Seq<char> {
    query_encoded(name) + "["@ + decimal(i) + "]="@ + query_encoded(value)
}

/// The parameters that forward one argument. An argument that takes several
/// values gives one parameter for each, with its index; one that takes a
/// value gives its first value, if it has one; one that counts gives the
/// number of its occurrences; any other gives whether it is there.
pub open spec fn arg_params(a: ArgumentSpec, m: ArgMatch) -> Seq<Seq<char>> {
    if a.takes_value && a.multiple {
        match m.values {
            Some(values) => Seq::new(
                values.len() as nat,
                |i: int| indexed_param(a.name@, i, values[i]@),
            ),
            None => Seq::empty(),
        }
    } else if a.takes_value {
        match m.values {
            Some(values) => if values.len() > 0 {
                seq![query_encoded(a.name@) + "="@ + query_encoded(values[0]@)]
            } else {
                Seq::empty()
            },
            None => Seq::empty(),
        }
    } else if a.multiple {
        seq![query_encoded(a.name@) + "="@ + decimal(m.occurrences as int)]
    } else {
        seq![query_encoded(a.name@) + "="@ + truth(m.present)]
    }
}

/// The parameters that forward the first `n` arguments, in their order.
pub open spec fn all_params(args: Seq<(ArgumentSpec, ArgMatch)>, n: int) -> Seq<Seq<char>>
    decreases n,
{
    if n <= 0 {
        Seq::empty()
    } else {
        all_params(args, n - 1) + arg_params(args[n - 1].0, args[n - 1].1)
    }
}

/// The first `n` parameters as a query string: a question mark before the
/// first, an ampersand before each of the others.
pub open spec fn joined(params: Seq<Seq<char>>, n: int) -> Seq<char>
    decreases n,
{
    if n <= 0 {
        Seq::empty()
    } else if n == 1 {
        "?"@ + params[0]
    } else {
        joined(params, n - 1) + "&"@ + params[n - 1]
    }
}

/// The path of the first `n` commands: a slash and the name, for each.
pub open spec fn path_of(commands: Seq<&'static str>, n: int) -> Seq<char>
    decreases n,
{
    if n <= 0 {
        Seq::empty()
    } else {
        path_of(commands, n - 1) + "/"@ + commands[n - 1]@
    }
}

/// The URL under which a command is forwarded to the HTTP interface on this
/// machine: the port, the path of commands, and the arguments as a query string.
pub open spec fn forwarded(
    port: u16,
    commands: Seq<&'static str>,
    args: Seq<(ArgumentSpec, ArgMatch)>,
) -> Seq<char> {
    let params = all_params(args, args.len() as int);
    "http://localhost:"@ + decimal(port as int) + path_of(commands, commands.len() as int)
        + joined(params, params.len() as int)
}

/// The first `n` parameters as a query string are the same whatever follows them.
pub proof fn lemma_joined_prefix(a: Seq<Seq<char>>, b: Seq<Seq<char>>, n: int)
    requires
        n <= a.len(),
    ensures
        joined(a + b, n) == joined(a, n),
    decreases n,
{
    if n > 1 {
        lemma_joined_prefix(a, b, n - 1);
        assert((a + b)[n - 1] == a[n - 1]);
    } else if n == 1 {
        assert((a + b)[0] == a[0]);
    }
}

/// The parameters that forward one argument.
pub fn params_of(a: &ArgumentSpec, m: &ArgMatch) -> (res: Vec<String>)
    ensures
        strings_view(res@) == arg_params(*a, *m),
{
    let mut out: Vec<String> = Vec::new();
    let name = query_encode(a.name);
    if a.takes_value && a.multiple {
        match &m.values {
            Some(values) => {
                let mut i: usize = 0;
                while i < values.len()
                    invariant
                        i <= values.len(),
                        out.len() == i,
                        name@ == query_encoded(a.name@),
                        forall|k: int|
                            0 <= k < i ==> (#[trigger] out[k])@ == indexed_param(
                                a.name@,
                                k,
                                values[k]@,
                            ),
                    decreases values.len() - i,
                {
                    let index = decimal_string(i as u128);
                    let value = query_encode(values[i].as_str());
                    let param = name.clone().concat("[").concat(index.as_str()).concat("]=").concat(
                        value.as_str(),
                    );
                    out.push(param);
                    i += 1;
                }
                proof {
                    assert(strings_view(out@) =~= arg_params(*a, *m));
                }
            },
            None => {
                proof {
                    assert(strings_view(out@) =~= arg_params(*a, *m));
                }
            },
        }
    } else if a.takes_value {
        match &m.values {
            Some(values) => {
                if values.len() > 0 {
                    let value = query_encode(values[0].as_str());
                    out.push(name.concat("=").concat(value.as_str()));
                }
                proof {
                    assert(strings_view(out@) =~= arg_params(*a, *m));
                }
            },
            None => {
                proof {
                    assert(strings_view(out@) =~= arg_params(*a, *m));
                }
            },
        }
    } else if a.multiple {
        let count = decimal_string(m.occurrences as u128);
        out.push(name.concat("=").concat(count.as_str()));
        proof {
            assert(strings_view(out@) =~= arg_params(*a, *m));
        }
    } else {
        let text = if m.present {
            "true"
        } else {
            "false"
        };
        out.push(name.concat("=").concat(text));
        proof {
            assert(strings_view(out@) =~= arg_params(*a, *m));
        }
    }
    out
}

/// The URL under which a command is forwarded to the HTTP interface on this
/// machine. `full_command` names the commands from the root to the one that
/// is forwarded; `args` are its arguments with what the command line holds
/// for each.
pub fn forward_url(
    port: u16,
    full_command: &Vec<&'static str>,
    args: &Vec<(ArgumentSpec, ArgMatch)>,
) -> (res: String)
    ensures
        res@ == forwarded(port, full_command@, args@),
{
    let number = decimal_string(port as u128);
    let mut url = "http://localhost:".to_owned().concat(number.as_str());
    let mut i: usize = 0;
    while i < full_command.len()
        invariant
            i <= full_command.len(),
            url@ == "http://localhost:"@ + decimal(port as int) + path_of(
                full_command@,
                i as int,
            ),
        decreases full_command.len() - i,
    {
        let ghost before = url@;
        url.append("/");
        url.append(full_command[i]);
        proof {
            assert(url@ =~= "http://localhost:"@ + decimal(port as int) + path_of(
                full_command@,
                i + 1,
            ));
        }
        i += 1;
    }
    let ghost head = url@;
    let ghost mut count: int = 0;
    let mut first = true;
    let mut j: usize = 0;
    while j < args.len()
        invariant
            j <= args.len(),
            count == all_params(args@, j as int).len(),
            first == (count == 0),
            url@ == head + joined(all_params(args@, j as int), count),
        decreases args.len() - j,
    {
        let next = params_of(&args[j].0, &args[j].1);
        let ghost done = all_params(args@, j as int);
        let ghost fresh = arg_params(args[j as int].0, args[j as int].1);
        let ghost total = done + fresh;
        proof {
            assert(all_params(args@, j + 1) == total);
            lemma_joined_prefix(done, fresh, count);
        }
        let mut k: usize = 0;
        while k < next.len()
            invariant
                k <= next.len(),
                strings_view(next@) == fresh,
                total == done + fresh,
                count == done.len() + k,
                first == (count == 0),
                url@ == head + joined(total, count),
            decreases next.len() - k,
        {
            proof {
                assert(total[count] == fresh[k as int]);
                assert(fresh[k as int] == next[k as int]@);
            }
            if first {
                url.append("?");
            } else {
                url.append("&");
            }
            url.append(next[k].as_str());
            proof {
                assert(url@ =~= head + joined(total, count + 1));
                count = count + 1;
            }
            first = false;
            k += 1;
        }
        j += 1;
    }
    url
}

} // verus!
