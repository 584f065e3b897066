//! Terminals: what a new terminal runs and where, the event payloads it
//! produces, and the decoding of its output stream into text.
use crate::error::{BackendError, BackendErrorCode};
use crate::json::{json_quote, json_quoted};
use crate::process::{cat, cat3, opt_str, own, strs};
use crate::text::{decimal, decimal_string};
use vstd::prelude::*;

verus! {

/// The `Missing or invalid field` error for `field`.
pub fn invalid(field: &str) -> (e: BackendError)
    ensures
        e.code == BackendErrorCode::InvalidArgument,
        e.message@ == "Missing or invalid field '"@ + field@ + "'"@,
{
    BackendError::with_message(
        BackendErrorCode::InvalidArgument,
        cat3("Missing or invalid field '", field, "'"),
    )
}

/// The error for an unknown terminal.
pub fn not_found(terminal_id: &str) -> (e: BackendError)
    ensures
        e.code == BackendErrorCode::InvalidArgument,
        e.message@ == "Terminal not found: "@ + terminal_id@,
{
    BackendError::with_message(BackendErrorCode::InvalidArgument, cat("Terminal not found: ", terminal_id))
}

/// An I/O error of the terminal system, with its message.
pub fn terminal_error(message: &str) -> (e: BackendError)
    ensures
        e.code == BackendErrorCode::Io,
        e.message@ == message@,
{
    BackendError::new(BackendErrorCode::Io, message)
}

/// The user's shell: `COMSPEC` (else `powershell.exe`) on Windows, `SHELL`
/// (else `/bin/sh`) elsewhere; `env_value` is that variable's value, if set.
pub open spec fn shell_for(windows: bool, env_value: Option<Seq<char>>) -> Seq<char> {
    match env_value {
        Some(v) => v,
        None => if windows {
            "powershell.exe"@
        } else {
            "/bin/sh"@
        },
    }
}

/// The user's shell.
pub fn default_shell(windows: bool, env_value: Option<&str>) -> (r: String)
    ensures
        r@ == shell_for(
            windows,
            match env_value {
                Some(v) => Some(v@),
                None => None,
            },
        ),
{
    match env_value {
        Some(v) => own(v),
        None => if windows {
            own("powershell.exe")
        } else {
            own("/bin/sh")
        },
    }
}

/// A program and its arguments.
#[derive(Clone, Debug)]
pub struct TerminalCommand {
    pub program: String,
    pub args: Vec<String>,
}

/// What a terminal runs: a command with its own arguments; a command line run
/// by the shell (`-c`, or `-Command` on Windows); or the shell itself. An
/// empty command is refused.
pub open spec fn command_for(
    command: Option<Seq<char>>,
    command_args: Option<Seq<Seq<char>>>,
    shell: Seq<char>,
    windows: bool,
) -> Result<(Seq<char>, Seq<Seq<char>>), Seq<char>> {
    match command {
        None => Ok((shell, seq![])),
        Some(c) => if c.len() == 0 {
            Err("Command is empty"@)
        } else {
            match command_args {
                Some(args) => Ok((c, args)),
                None => Ok(
                    (
                        shell,
                        seq![
                            if windows {
                                "-Command"@
                            } else {
                                "-c"@
                            },
                            c,
                        ],
                    ),
                ),
            }
        },
    }
}

/// What a terminal runs.
pub fn build_command(
    command: Option<&str>,
    command_args: Option<&Vec<String>>,
    shell: &str,
    windows: bool,
) -> (r: Result<TerminalCommand, BackendError>)
    ensures
        match r {
            Ok(c) => command_for(
                match command {
                    Some(c) => Some(c@),
                    None => None,
                },
                match command_args {
                    Some(a) => Some(strs(a@)),
                    None => None,
                },
                shell@,
                windows,
            ) == Ok::<(Seq<char>, Seq<Seq<char>>), Seq<char>>((c.program@, strs(c.args@))),
            Err(e) => e.code == BackendErrorCode::InvalidArgument && command_for(
                match command {
                    Some(c) => Some(c@),
                    None => None,
                },
                match command_args {
                    Some(a) => Some(strs(a@)),
                    None => None,
                },
                shell@,
                windows,
            ) == Err::<(Seq<char>, Seq<Seq<char>>), Seq<char>>(e.message@),
        },
{
    match command {
        None => {
            let args: Vec<String> = Vec::new();
            assert(strs(args@) =~= Seq::<Seq<char>>::empty());
            Ok(TerminalCommand { program: own(shell), args })
        },
        Some(c) => {
            if c.is_empty() {
                return Err(BackendError::new(BackendErrorCode::InvalidArgument, "Command is empty"));
            }
            match command_args {
                Some(a) => Ok(TerminalCommand { program: own(c), args: a.clone() }),
                None => {
                    let flag = if windows {
                        own("-Command")
                    } else {
                        own("-c")
                    };
                    let args = vec![flag, own(c)];
                    assert(strs(args@) =~= seq![
                        if windows {
                            "-Command"@
                        } else {
                            "-c"@
                        },
                        c@,
                    ]);
                    Ok(TerminalCommand { program: own(shell), args })
                },
            }
        },
    }
}

/// The checks before a terminal is opened: it needs an identifier that is not
/// in use. Yields the terminal's size, each side at least 1.
pub fn check_terminal_start(terminal_id: &str, exists: bool, cols: u16, rows: u16) -> (r: Result<
    (u16, u16),
    BackendError,
>)
    ensures
        terminal_id@.len() == 0 ==> (r matches Err(e) && e.code == BackendErrorCode::InvalidArgument
            && e.message@ == "Missing or invalid field 'terminalId'"@),
        terminal_id@.len() > 0 && exists ==> (r matches Err(e) && e.code
            == BackendErrorCode::InvalidArgument && e.message@ == "Terminal already exists"@),
        terminal_id@.len() > 0 && !exists ==> r == Ok::<(u16, u16), BackendError>(
            (
                if cols == 0 {
                    1
                } else {
                    cols
                },
                if rows == 0 {
                    1
                } else {
                    rows
                },
            ),
        ),
{
    if terminal_id.is_empty() {
        let e = invalid("terminalId");
        proof {
            reveal_strlit("terminalId");
            reveal_strlit("Missing or invalid field '");
            reveal_strlit("'");
            reveal_strlit("Missing or invalid field 'terminalId'");
            assert("Missing or invalid field '"@ + "terminalId"@ + "'"@
                =~= "Missing or invalid field 'terminalId'"@);
        }
        return Err(e);
    }
    if exists {
        return Err(BackendError::new(BackendErrorCode::InvalidArgument, "Terminal already exists"));
    }
    let c = if cols == 0 {
        1
    } else {
        cols
    };
    let r = if rows == 0 {
        1
    } else {
        rows
    };
    Ok((c, r))
}

/// Where a terminal starts: the worktree when it is a directory, else the
/// temporary directory.
pub fn terminal_cwd(worktree_path: &str, worktree_is_dir: bool, temp_dir: &str) -> (r: String)
    ensures
        r@ == if worktree_is_dir {
            worktree_path@
        } else {
            temp_dir@
        },
{
    if worktree_is_dir {
        own(worktree_path)
    } else {
        own(temp_dir)
    }
}

/// The environment a terminal adds.
pub fn terminal_env(worktree_path: &str) -> (r: Vec<(String, String)>)
    ensures
        r@.len() == 3,
        r@[0].0@ == "TERM"@ && r@[0].1@ == "xterm-256color"@,
        r@[1].0@ == "COLORTERM"@ && r@[1].1@ == "truecolor"@,
        r@[2].0@ == "JEAN_WORKTREE_PATH"@ && r@[2].1@ == worktree_path@,
{
    vec![
        (own("TERM"), own("xterm-256color")),
        (own("COLORTERM"), own("truecolor")),
        (own("JEAN_WORKTREE_PATH"), own(worktree_path)),
    ]
}

// ---------------------------------------------------------------------------
// Event payloads
// ---------------------------------------------------------------------------

/// The payload of `terminal:started`.
pub open spec fn started_payload(terminal_id: Seq<char>, cols: u16, rows: u16) -> Seq<char> {
    "{\"cols\":"@ + decimal(cols as nat) + ",\"rows\":"@ + decimal(rows as nat)
        + ",\"terminal_id\":"@ + json_quoted(terminal_id) + "}"@
}

/// The payload of `terminal:started`, as JSON text.
pub fn terminal_started_payload(terminal_id: &str, cols: u16, rows: u16) -> (r: String)
    ensures
        r@ == started_payload(terminal_id@, cols, rows),
{
    let mut r = cat3("{\"cols\":", decimal_string(cols as u64).as_str(), ",\"rows\":");
    r.append(decimal_string(rows as u64).as_str());
    r.append(",\"terminal_id\":");
    r.append(json_quote(terminal_id).as_str());
    r.append("}");
    r
}

/// The payload of `terminal:output`.
pub open spec fn output_payload(terminal_id: Seq<char>, data: Seq<char>) -> Seq<char> {
    "{\"data\":"@ + json_quoted(data) + ",\"terminal_id\":"@ + json_quoted(terminal_id) + "}"@
}

/// The payload of `terminal:output`, as JSON text.
pub fn terminal_output_payload(terminal_id: &str, data: &str) -> (r: String)
    ensures
        r@ == output_payload(terminal_id@, data@),
{
    let mut r = cat3("{\"data\":", json_quote(data).as_str(), ",\"terminal_id\":");
    r.append(json_quote(terminal_id).as_str());
    r.append("}");
    r
}

/// A signed number in decimal.
pub open spec fn signed_decimal(n: int) -> Seq<char> {
    if n < 0 {
        "-"@ + decimal((-n) as nat)
    } else {
        decimal(n as nat)
    }
}

/// The payload of `terminal:stopped`: the exit code when known, no signal.
pub open spec fn stopped_payload(terminal_id: Seq<char>, exit_code: Option<i32>) -> Seq<char> {
    "{\"exit_code\":"@ + match exit_code {
        Some(c) => signed_decimal(c as int),
        None => "null"@,
    } + ",\"signal\":null,\"terminal_id\":"@ + json_quoted(terminal_id) + "}"@
}

/// The payload of `terminal:stopped`, as JSON text.
pub fn terminal_stopped_payload(terminal_id: &str, exit_code: Option<i32>) -> (r: String)
    ensures
        r@ == stopped_payload(terminal_id@, exit_code),
{
    let code = match exit_code {
        None => own("null"),
        Some(c) => if c < 0 {
            let magnitude: u64 = (0 - (c as i64)) as u64;
            cat("-", decimal_string(magnitude).as_str())
        } else {
            decimal_string(c as u64)
        },
    };
    let mut r = cat3("{\"exit_code\":", code.as_str(), ",\"signal\":null,\"terminal_id\":");
    r.append(json_quote(terminal_id).as_str());
    r.append("}");
    r
}

// ---------------------------------------------------------------------------
// Decoding terminal output
// ---------------------------------------------------------------------------

/// What `String::from_utf8_lossy` makes of bytes that are not valid UTF-8.
pub uninterp spec fn lossy_text(bytes: Seq<u8>) -> Seq<char>;

/// The length of the longest prefix of `bytes` that is valid UTF-8.
pub open spec fn is_valid_prefix_len(bytes: Seq<u8>, n: int) -> bool {
    &&& 0 <= n <= bytes.len()
    &&& vstd::utf8::valid_utf8(bytes.take(n))
    &&& forall|m: int| n < m <= bytes.len() ==> !vstd::utf8::valid_utf8(#[trigger] bytes.take(m))
}

/// The length of the longest valid UTF-8 prefix.
pub open spec fn valid_prefix_len(bytes: Seq<u8>) -> int {
    choose|n: int| is_valid_prefix_len(bytes, n)
}

/// Whether `t` is the start of the encoding of one scalar that more bytes
/// would complete.
pub open spec fn completable_scalar_start(t: Seq<u8>) -> bool {
    exists|c: Seq<u8>|
        c.len() > 0 && #[trigger] vstd::utf8::valid_first_scalar(t + c)
            && vstd::utf8::length_of_first_scalar(t + c) == t.len() + c.len()
}

/// Whether the input ended in the middle of a scalar's encoding: the bytes
/// after the longest valid prefix begin a scalar that more input would
/// complete (`Utf8Error::error_len` is `None`), rather than holding a byte
/// that no input could make valid.
pub open spec fn utf8_incomplete_tail(bytes: Seq<u8>) -> bool {
    completable_scalar_start(bytes.skip(valid_prefix_len(bytes)))
}

/// `std::str::from_utf8`: `None` for valid UTF-8, else `Utf8Error::valid_up_to`
/// and whether `Utf8Error::error_len` is `None`. As std documents them,
/// `valid_up_to` is the longest valid prefix's length, and `error_len` is
/// `None` exactly when the input ended in the middle of a character's
/// encoding rather than at an unexpected byte.
#[verifier::external_body]
fn utf8_check(bytes: &[u8]) -> (r: Option<(usize, bool)>)
    ensures
        match r {
            None => vstd::utf8::valid_utf8(bytes@),
            Some((n, incomplete)) => !vstd::utf8::valid_utf8(bytes@) && is_valid_prefix_len(
                bytes@,
                n as int,
            ) && incomplete == utf8_incomplete_tail(bytes@),
        },
{
    match std::str::from_utf8(bytes) {
        Ok(_) => None,
        Err(e) => Some((e.valid_up_to(), e.error_len().is_none())),
    }
}

/// `String::from_utf8_lossy`: valid UTF-8 is decoded as it is (std documents
/// this); for other bytes the text is named `lossy_text`.
#[verifier::external_body]
fn utf8_lossy(bytes: &[u8]) -> (r: String)
    ensures
        vstd::utf8::valid_utf8(bytes@) ==> r@ == vstd::utf8::decode_utf8(bytes@),
        !vstd::utf8::valid_utf8(bytes@) ==> r@ == lossy_text(bytes@),
{
    String::from_utf8_lossy(bytes).into_owned()
}

/// The text decoded from `bytes` (lossily where they are not UTF-8).
pub open spec fn text_of_bytes(bytes: Seq<u8>) -> Seq<char> {
    if vstd::utf8::valid_utf8(bytes) {
        vstd::utf8::decode_utf8(bytes)
    } else {
        lossy_text(bytes)
    }
}

/// Non-empty text, or nothing.
pub open spec fn nonempty_text(t: Seq<char>) -> Option<Seq<char>> {
    if t.len() == 0 {
        None
    } else {
        Some(t)
    }
}

/// One step of decoding a stream: the text of `carried` followed by `bytes`,
/// and what is held back. Valid UTF-8 is all decoded; an incomplete
/// character at the end is held back and the valid part before it decoded;
/// anything else is decoded lossily. Empty text is `None`.
pub open spec fn decode_step(carried: Seq<u8>, bytes: Seq<u8>) -> (Option<Seq<char>>, Seq<u8>) {
    let all = carried + bytes;
    let n = valid_prefix_len(all);
    if vstd::utf8::valid_utf8(all) {
        (nonempty_text(vstd::utf8::decode_utf8(all)), Seq::<u8>::empty())
    } else if utf8_incomplete_tail(all) {
        (nonempty_text(vstd::utf8::decode_utf8(all.take(n))), all.skip(n))
    } else {
        (nonempty_text(lossy_text(all)), Seq::<u8>::empty())
    }
}

/// Decodes a byte stream into text, holding back an incomplete UTF-8
/// sequence at the end of a chunk until the next chunk completes it.
#[derive(Debug)]
pub struct Utf8StreamDecoder {
    carry: Vec<u8>,
}

impl Utf8StreamDecoder {
    /// The bytes held back.
    pub closed spec fn carried(&self) -> Seq<u8> {
        self.carry@
    }

    /// A decoder holding nothing.
    pub fn new() -> (d: Self)
        ensures
            d.carried() == Seq::<u8>::empty(),
    {
        Utf8StreamDecoder { carry: Vec::new() }
    }

    /// Decodes the next chunk (see [`decode_step`]).
    pub fn decode(&mut self, bytes: &[u8]) -> (r: Option<String>)
        ensures
            (opt_str(r), final(self).carried()) == decode_step(old(self).carried(), bytes@),
    {
        let ghost all = self.carry@ + bytes@;
        let mut carry: Vec<u8> = Vec::new();
        std::mem::swap(&mut carry, &mut self.carry);
        let mut i: usize = 0;
        while i < bytes.len()
            invariant
                i <= bytes@.len(),
                carry@ == old(self).carry@ + bytes@.take(i as int),
                self.carry@ == Seq::<u8>::empty(),
            decreases bytes.len() - i,
        {
            carry.push(bytes[i]);
            assert(bytes@.take(i + 1) =~= bytes@.take(i as int).push(bytes@[i as int]));
            i = i + 1;
        }
        assert(bytes@.take(bytes@.len() as int) =~= bytes@);
        assert(carry@ =~= all);
        match utf8_check(carry.as_slice()) {
            None => {
                let out = utf8_lossy(carry.as_slice());
                if out.as_str().is_empty() {
                    None
                } else {
                    Some(out)
                }
            },
            Some((n, true)) => {
                let ghost m = choose|m: int| is_valid_prefix_len(all, m);
                proof {
                    if m < n {
                        assert(!vstd::utf8::valid_utf8(all.take(n as int)));
                    } else if m > n {
                        assert(!vstd::utf8::valid_utf8(all.take(m)));
                    }
                }
                let mut head: Vec<u8> = Vec::new();
                let mut tail: Vec<u8> = Vec::new();
                let mut j: usize = 0;
                while j < carry.len()
                    invariant
                        n <= carry@.len(),
                        j <= carry@.len(),
                        head@ == carry@.take(if j < n { j as int } else { n as int }),
                        tail@ == if j <= n {
                            Seq::<u8>::empty()
                        } else {
                            carry@.subrange(n as int, j as int)
                        },
                    decreases carry.len() - j,
                {
                    if j < n {
                        head.push(carry[j]);
                        assert(carry@.take(j + 1) =~= carry@.take(j as int).push(carry@[j as int]));
                    } else {
                        let ghost before = tail@;
                        tail.push(carry[j]);
                        assert(carry@.subrange(n as int, j + 1) =~= before.push(carry@[j as int]));
                    }
                    j = j + 1;
                }
                assert(carry@.subrange(n as int, carry@.len() as int) =~= carry@.skip(n as int));
                self.carry = tail;
                let out = utf8_lossy(head.as_slice());
                if out.as_str().is_empty() {
                    None
                } else {
                    Some(out)
                }
            },
            Some((_, false)) => {
                let out = utf8_lossy(carry.as_slice());
                if out.as_str().is_empty() {
                    None
                } else {
                    Some(out)
                }
            },
        }
    }

    /// Decodes whatever is held back (lossily) and empties the decoder.
    pub fn finish(&mut self) -> (r: Option<String>)
        ensures
            opt_str(r) == nonempty_text(text_of_bytes(old(self).carried())),
            final(self).carried() == Seq::<u8>::empty(),
    {
        let mut carry: Vec<u8> = Vec::new();
        std::mem::swap(&mut carry, &mut self.carry);
        let out = utf8_lossy(carry.as_slice());
        if out.as_str().is_empty() {
            None
        } else {
            Some(out)
        }
    }
}

impl Default for Utf8StreamDecoder {
    fn default() -> (d: Self)
        ensures
            d.carried() == Seq::<u8>::empty(),
    {
        Utf8StreamDecoder::new()
    }
}

} // verus!
