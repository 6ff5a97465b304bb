//! Shell command lines: a command word, its arguments, and a trailing `&` that
//! runs a program in the background.
use vstd::prelude::*;

verus! {

/// The commands the shell understands.
#[derive(Clone, Copy, Debug, PartialEq, Eq, Structural)]
pub enum Command {
    /// `ls`: list the program files.
    ListFiles,
    /// `ps`: list the processes.
    ProcessStatus,
    /// `exec <name>`: run a program in the foreground and wait for it.
    Execute,
    /// `exec <name> &`: run a program in the background.
    ExecuteAsync,
    /// `kill <pid>`: stop a process.
    Kill,
    /// `exit`: leave the shell.
    Exit,
}

/// A command with its arguments.
pub struct CommandWithArgs {
    pub cmd: Command,
    pub args: Vec<String>,
}

/// The command a word names, if any; `exec` names the foreground form.
pub open spec fn command_of(w: Seq<char>) -> Option<Command> {
    if w == "ls"@ {
        Some(Command::ListFiles)
    } else if w == "ps"@ {
        Some(Command::ProcessStatus)
    } else if w == "exec"@ {
        Some(Command::Execute)
    } else if w == "kill"@ {
        Some(Command::Kill)
    } else if w == "exit"@ {
        Some(Command::Exit)
    } else {
        None
    }
}

/// The command and arguments that the words of a line make: the first word
/// names the command, the rest are its arguments, and a last word `&` after
/// the first is dropped from them and makes `exec` run in the background.
pub open spec fn parse_words(ws: Seq<Seq<char>>) -> Option<(Command, Seq<Seq<char>>)> {
    if ws.len() == 0 {
        None
    } else {
        match command_of(ws[0]) {
            None => None,
            Some(c) => {
                let amp = ws.len() > 1 && ws.last() == "&"@;
                let end = if amp {
                    ws.len() - 1
                } else {
                    ws.len() as int
                };
                let cmd = if amp && c == Command::Execute {
                    Command::ExecuteAsync
                } else {
                    c
                };
                Some((cmd, ws.subrange(1, end)))
            },
        }
    }
}

/// The words of a line, split at white space.
pub uninterp spec fn words_of(s: Seq<char>) -> Seq<Seq<char>>;

/// The text of each string.
pub open spec fn texts(v: Seq<String>) -> Seq<Seq<char>> {
    v.map_values(|w: String| w@)
}

/// Relies on `str::split_whitespace`: the words of `s` in order, split at runs
/// of Unicode white space, with none empty. They depend on the characters of
/// `s` alone.
#[verifier::external_body]
fn split_words(s: &str) -> (r: Vec<String>)
    ensures
        texts(r@) == words_of(s@),
{
    s.split_whitespace().map(|w| w.to_string()).collect()
}

/// Whether `a` and `b` hold the same characters.
fn same_text(a: &str, b: &str) -> (r: bool)
    ensures
        r == (a@ == b@),
{
    String::from_str(a) == String::from_str(b)
}

impl Command {
    /// The command a word names, if any; `exec` names the foreground form.
    pub fn decode(cmd: &str) -> (r: Option<Command>)
        ensures
            r == command_of(cmd@),
    {
        proof {
            reveal_strlit("ls");
            reveal_strlit("ps");
            reveal_strlit("exec");
            reveal_strlit("kill");
            reveal_strlit("exit");
        }
        if same_text(cmd, "ls") {
            Some(Command::ListFiles)
        } else if same_text(cmd, "ps") {
            Some(Command::ProcessStatus)
        } else if same_text(cmd, "exec") {
            Some(Command::Execute)
        } else if same_text(cmd, "kill") {
            Some(Command::Kill)
        } else if same_text(cmd, "exit") {
            Some(Command::Exit)
        } else {
            None
        }
    }
}

impl CommandWithArgs {
    /// The command that the words of a line make, or `None` when there are no
    /// words or the first is no command.
    pub fn from_words(words: &Vec<String>) -> (r: Option<CommandWithArgs>)
        ensures
            r is Some <==> parse_words(texts(words@)) is Some,
            r is Some ==> r->Some_0.cmd == parse_words(texts(words@))->Some_0.0,
            r is Some ==> texts(r->Some_0.args@) == parse_words(texts(words@))->Some_0.1,
    {
        let ghost ws = texts(words@);
        if words.len() == 0 {
            return None;
        }
        let cmd = match Command::decode(words[0].as_str()) {
            Some(c) => c,
            None => return None,
        };
        let n = words.len();
        proof {
            reveal_strlit("&");
        }
        let amp = n > 1 && same_text(words[n - 1].as_str(), "&");
        let end = if amp {
            n - 1
        } else {
            n
        };
        let cmd = if amp && cmd == Command::Execute {
            Command::ExecuteAsync
        } else {
            cmd
        };
        let mut args: Vec<String> = Vec::new();
        let mut i: usize = 1;
        while i < end
            invariant
                1 <= i <= end <= n,
                n == words@.len(),
                ws == texts(words@),
                texts(args@) == ws.subrange(1, i as int),
            decreases end - i,
        {
            let w = words[i].clone();
            let ghost before = args@;
            args.push(w);
            assert(args@ == before.push(w));
            assert(w@ == ws[i as int]);
            assert(texts(args@) =~= texts(before).push(w@));
            assert(ws.subrange(1, i + 1) =~= ws.subrange(1, i as int).push(ws[i as int]));
            i += 1;
            assert(texts(args@) =~= ws.subrange(1, i as int));
        }
        Some(CommandWithArgs { cmd, args })
    }

    /// The command on a line, or `None` when the line is blank or its first
    /// word is no command.
    pub fn from_string(s: &str) -> (r: Option<CommandWithArgs>)
        ensures
            r is Some <==> parse_words(words_of(s@)) is Some,
            r is Some ==> r->Some_0.cmd == parse_words(words_of(s@))->Some_0.0,
            r is Some ==> texts(r->Some_0.args@) == parse_words(words_of(s@))->Some_0.1,
    {
        let words = split_words(s);
        CommandWithArgs::from_words(&words)
    }
}

/// Whether `c` is a decimal digit.
pub open spec fn is_digit(c: char) -> bool {
    '0' <= c <= '9'
}

/// The value of a string of decimal digits.
pub open spec fn digits_value(s: Seq<char>) -> nat
    decreases s.len(),
{
    if s.len() == 0 {
        0
    } else {
        digits_value(s.drop_last()) * 10 + (s.last() as nat - '0' as nat) as nat
    }
}

/// Whether `s` is a process id: one or more decimal digits whose value fits
/// in a word.
pub open spec fn is_pid_text(s: Seq<char>) -> bool {
    &&& s.len() > 0
    &&& forall|i: int| 0 <= i < s.len() ==> is_digit(#[trigger] s[i])
    &&& digits_value(s) < 0x1_0000
}

/// A string of digits is worth at least as much as any prefix of it.
proof fn lemma_digits_prefix(s: Seq<char>, i: int)
    requires
        0 <= i <= s.len(),
        forall|j: int| 0 <= j < s.len() ==> is_digit(#[trigger] s[j]),
    ensures
        digits_value(s.take(i)) <= digits_value(s),
    decreases s.len() - i,
{
    if i < s.len() {
        lemma_digits_prefix(s, i + 1);
        assert(s.take(i + 1).drop_last() =~= s.take(i));
    } else {
        assert(s.take(i) =~= s);
    }
}

/// The process id written in decimal in `arg`, or `None` when `arg` is not
/// one or more decimal digits or its value does not fit in a word.
pub fn parse_pid(arg: &str) -> (r: Option<u16>)
    ensures
        r is Some <==> is_pid_text(arg@),
        r is Some ==> r->Some_0 == digits_value(arg@),
{
    let n = arg.unicode_len();
    if n == 0 {
        return None;
    }
    let mut value: u32 = 0;
    let mut i: usize = 0;
    while i < n
        invariant
            n == arg@.len(),
            i <= n,
            value == digits_value(arg@.take(i as int)),
            value < 0x1_0000,
            forall|j: int| 0 <= j < i ==> is_digit(#[trigger] arg@[j]),
        decreases n - i,
    {
        let c = arg.get_char(i);
        if c < '0' || c > '9' {
            return None;
        }
        assert(arg@.take(i + 1).drop_last() =~= arg@.take(i as int));
        value = value * 10 + (c as u32 - '0' as u32);
        i += 1;
        if value >= 0x1_0000 {
            proof {
                if forall|j: int| 0 <= j < n ==> is_digit(#[trigger] arg@[j]) {
                    lemma_digits_prefix(arg@, i as int);
                }
            }
            return None;
        }
    }
    assert(arg@.take(n as int) =~= arg@);
    Some(value as u16)
}

/// What follows the word in the reply to an unknown command.
pub open spec fn not_found_suffix() -> Seq<char> {
    ": command not found"@
}

/// The reply to a line whose first word is no command: that word, then
/// `: command not found`; `None` for a blank line.
pub fn not_found_message(line: &str) -> (r: Option<String>)
    ensures
        r is Some <==> words_of(line@).len() > 0,
        r is Some ==> r->Some_0@ == words_of(line@)[0] + not_found_suffix(),
{
    let words = split_words(line);
    if words.len() == 0 {
        return None;
    }
    assert(texts(words@)[0] == words@[0]@);
    let mut msg = words[0].clone();
    proof {
        reveal_strlit(": command not found");
    }
    msg.append(": command not found");
    assert(msg@ =~= words_of(line@)[0] + not_found_suffix());
    Some(msg)
}

} // verus!
