//! Commands on remote hosts over SSH.

use vstd::prelude::*;
use vstd::string::*;

use crate::config::Environment;
use crate::error;
use crate::error::{ErrorView, SymphonyError};
use crate::text;

verus! {

/// Where SSH connects to.
#[derive(Debug, PartialEq, Eq)]
pub struct SshTarget {
    pub destination: String,
    pub port: Option<String>,
}

/// The model of where SSH connects to.
#[verifier::ext_equal]
pub struct TargetView {
    pub destination: Seq<char>,
    pub port: Option<Seq<char>>,
}

impl View for SshTarget {
    type V = TargetView;

    open spec fn view(&self) -> TargetView {
        TargetView { destination: self.destination@, port: text::opt_text(self.port) }
    }
}

/// A port is a run of digits.
pub open spec fn port_like(s: Seq<char>) -> bool {
    text::is_digits(s)
}

/// A host without a port.
pub open spec fn plain(host: Seq<char>) -> TargetView {
    TargetView { destination: host, port: None }
}

/// The characters of a text before a position.
pub open spec fn head(s: Seq<char>, i: int) -> Seq<char> {
    s.subrange(0, i)
}

/// The characters of a text from a position on.
pub open spec fn tail(s: Seq<char>, i: int) -> Seq<char> {
    s.subrange(i, s.len() as int)
}

/// Where a host in brackets leads: what follows the bracket is a port when it is `:` and digits.
pub open spec fn bracketed(host: Seq<char>) -> TargetView {
    let end = text::find_char(host, 0, ']');
    if end + 1 < host.len() && host[end + 1] == ':' && port_like(tail(host, end + 2)) {
        TargetView { destination: head(host, end + 1), port: Some(tail(host, end + 2)) }
    } else {
        plain(host)
    }
}

/// Where a host leads. `host:port` has a port where there is just one colon, a name before it and
/// digits after it; an address in brackets may be followed by a port.
pub open spec fn target_of(host: Seq<char>) -> TargetView {
    if host.len() > 0 && host[0] == '[' && text::find_char(host, 0, ']') < host.len() {
        bracketed(host)
    } else {
        let colon = text::find_char(host, 0, ':');
        if 0 < colon < host.len() && text::find_char(host, colon + 1, ':') >= host.len()
            && port_like(tail(host, colon + 1)) {
            TargetView { destination: head(host, colon), port: Some(tail(host, colon + 1)) }
        } else {
            plain(host)
        }
    }
}

fn index_of(chars: &Vec<char>, from: usize, c: char) -> (r: usize)
    requires
        from <= chars@.len(),
    ensures
        r == text::find_char(chars@, from as int, c),
        from <= r <= chars@.len(),
{
    let mut i: usize = from;
    while i < chars.len() && chars[i] != c
        invariant
            from <= i <= chars@.len(),
            text::find_char(chars@, from as int, c) == text::find_char(chars@, i as int, c),
        ensures
            i < chars@.len() ==> chars@[i as int] == c,
        decreases chars@.len() - i,
    {
        i = i + 1;
    }
    i
}

fn is_port(chars: &Vec<char>, from: usize) -> (r: bool)
    requires
        from <= chars@.len(),
    ensures
        r == port_like(tail(chars@, from as int)),
{
    if from == chars.len() {
        return false;
    }
    let ghost rest = tail(chars@, from as int);
    let mut i: usize = from;
    while i < chars.len()
        invariant
            from <= i <= chars@.len(),
            rest == tail(chars@, from as int),
            forall|k: int| 0 <= k < i - from ==> '0' <= #[trigger] rest[k] <= '9',
        decreases chars@.len() - i,
    {
        if chars[i] < '0' || chars[i] > '9' {
            proof {
                assert(rest[i - from] == chars@[i as int]);
            }
            return false;
        }
        i = i + 1;
    }
    true
}

fn plain_target(host: &str) -> (r: SshTarget)
    ensures
        r@ == plain(host@),
{
    SshTarget { destination: host.to_owned(), port: None }
}

fn parse_bracketed_target(host: &str, chars: &Vec<char>, end: usize) -> (r: SshTarget)
    requires
        chars@ == host@,
        end == text::find_char(host@, 0, ']'),
        end < chars@.len(),
    ensures
        r@ == bracketed(host@),
{
    if end < chars.len() - 1 && chars[end + 1] == ':' {
        if is_port(chars, end + 2) {
            return SshTarget {
                destination: text::from_chars(chars, 0, end + 1),
                port: Some(text::from_chars(chars, end + 2, chars.len())),
            };
        }
    }
    plain_target(host)
}

/// Where a host leads.
pub fn parse_target(host: &str) -> (r: SshTarget)
    ensures
        r@ == target_of(host@),
{
    let chars = text::to_chars(host);
    if chars.len() > 0 && chars[0] == '[' {
        let end: usize = index_of(&chars, 0, ']');
        if end < chars.len() {
            return parse_bracketed_target(host, &chars, end);
        }
    }
    let colon: usize = index_of(&chars, 0, ':');
    if colon == 0 || colon >= chars.len() {
        return plain_target(host);
    }
    let second: usize = index_of(&chars, colon + 1, ':');
    if second < chars.len() || !is_port(&chars, colon + 1) {
        return plain_target(host);
    }
    SshTarget {
        destination: text::from_chars(&chars, 0, colon),
        port: Some(text::from_chars(&chars, colon + 1, chars.len())),
    }
}

/// How one character stands inside single quotes: a single quote closes them, stands in double
/// quotes, and opens them again.
pub open spec fn escaped_char(c: char) -> Seq<char> {
    if c == '\'' {
        "'\"'\"'"@
    } else {
        seq![c]
    }
}

/// How a text stands inside single quotes.
pub open spec fn escaped_body(s: Seq<char>) -> Seq<char>
    decreases s.len(),
{
    if s.len() == 0 {
        Seq::empty()
    } else {
        escaped_body(s.drop_last()) + escaped_char(s.last())
    }
}

/// A text as one word of a shell command.
pub open spec fn escaped(s: Seq<char>) -> Seq<char> {
    "'"@ + escaped_body(s) + "'"@
}

/// A text as one word of a shell command.
pub fn shell_escape(value: &str) -> (r: String)
    ensures
        r@ == escaped(value@),
{
    let chars = text::to_chars(value);
    let mut out: String = "'".to_owned();
    let mut i: usize = 0;
    proof {
        assert(out@ =~= "'"@ + escaped_body(value@.take(0)));
    }
    while i < chars.len()
        invariant
            chars@ == value@,
            i <= chars@.len(),
            out@ == "'"@ + escaped_body(value@.take(i as int)),
        decreases chars@.len() - i,
    {
        let c: char = chars[i];
        let ghost before = out@;
        proof {
            let next = value@.take(i + 1);
            assert(next.drop_last() =~= value@.take(i as int));
            assert(next.last() == c);
        }
        if c == '\'' {
            out.append("'\"'\"'");
        } else {
            out.push(c);
            proof {
                assert(before.push(c) =~= before + seq![c]);
            }
        }
        proof {
            assert(out@ =~= "'"@ + escaped_body(value@.take(i + 1)));
        }
        i = i + 1;
    }
    proof {
        assert(value@.take(value@.len() as int) =~= value@);
    }
    out.append("'");
    out
}

/// Where a reader of a shell word is: between quotes, inside single quotes, or inside double
/// quotes.
pub enum QuoteMode {
    Outside,
    Single,
    Double,
}

/// The text that a shell reads from a word that is made of quoted parts only; nothing where the
/// word is not of that form or would be expanded.
pub open spec fn unquoted(s: Seq<char>, mode: QuoteMode) -> Option<Seq<char>>
    decreases s.len(),
{
    if s.len() == 0 {
        if mode is Outside {
            Some(Seq::empty())
        } else {
            None
        }
    } else {
        let rest = s.subrange(1, s.len() as int);
        match mode {
            QuoteMode::Outside => if s[0] == '\'' {
                unquoted(rest, QuoteMode::Single)
            } else if s[0] == '"' {
                unquoted(rest, QuoteMode::Double)
            } else {
                None
            },
            QuoteMode::Single => if s[0] == '\'' {
                unquoted(rest, QuoteMode::Outside)
            } else {
                prepend(s[0], unquoted(rest, QuoteMode::Single))
            },
            QuoteMode::Double => if s[0] == '"' {
                unquoted(rest, QuoteMode::Outside)
            } else if s[0] == '\\' || s[0] == '$' || s[0] == '`' {
                None
            } else {
                prepend(s[0], unquoted(rest, QuoteMode::Double))
            },
        }
    }
}

/// A character in front of a text.
pub open spec fn prepend(c: char, s: Option<Seq<char>>) -> Option<Seq<char>> {
    match s {
        Some(text) => Some(seq![c] + text),
        None => None,
    }
}

proof fn lemma_unquoted_prefix(s: Seq<char>, rest: Seq<char>)
    ensures
        unquoted(escaped_body(s) + rest, QuoteMode::Single) == match unquoted(
            rest,
            QuoteMode::Single,
        ) {
            Some(text) => Some(s + text),
            None => None::<Seq<char>>,
        },
    decreases s.len(),
{
    if s.len() == 0 {
        assert(escaped_body(s) + rest =~= rest);
        if let Some(text) = unquoted(rest, QuoteMode::Single) {
            assert(s + text =~= text);
        }
    } else {
        let c = s.last();
        let more = escaped_char(c) + rest;
        lemma_unquoted_prefix(s.drop_last(), more);
        assert(escaped_body(s) + rest =~= escaped_body(s.drop_last()) + more);
        assert(unquoted(more, QuoteMode::Single) == prepend(
            c,
            unquoted(rest, QuoteMode::Single),
        )) by {
            if c == '\'' {
                reveal_strlit("'\"'\"'");
                let e = "'\"'\"'"@;
                assert(e.len() == 5);
                let m1 = more.subrange(1, more.len() as int);
                let m2 = m1.subrange(1, m1.len() as int);
                let m3 = m2.subrange(1, m2.len() as int);
                let m4 = m3.subrange(1, m3.len() as int);
                let m5 = m4.subrange(1, m4.len() as int);
                assert(more[0] == '\'');
                assert(m1[0] == e[1] && m1[0] == '"');
                assert(m2[0] == e[2] && m2[0] == '\'');
                assert(m3[0] == e[3] && m3[0] == '"');
                assert(m4[0] == e[4] && m4[0] == '\'');
                assert(m5 =~= rest);
                assert(unquoted(m4, QuoteMode::Outside) == unquoted(rest, QuoteMode::Single));
                assert(unquoted(m3, QuoteMode::Double) == unquoted(m4, QuoteMode::Outside));
                assert(unquoted(m2, QuoteMode::Double) == prepend(
                    '\'',
                    unquoted(m3, QuoteMode::Double),
                ));
                assert(unquoted(m1, QuoteMode::Outside) == unquoted(m2, QuoteMode::Double));
            } else {
                assert(more[0] == c);
                assert(more.subrange(1, more.len() as int) =~= rest);
            }
        }
        if let Some(text) = unquoted(rest, QuoteMode::Single) {
            assert(s.drop_last() + (seq![c] + text) =~= s + text);
        }
    }
}

/// A shell reads an escaped text back as the text itself, whatever it holds.
pub proof fn lemma_shell_reads_escaped_text(s: Seq<char>)
    ensures
        unquoted(escaped(s), QuoteMode::Outside) == Some(s),
{
    reveal_strlit("'");
    let quote = "'"@;
    lemma_unquoted_prefix(s, quote);
    assert(escaped(s).subrange(1, escaped(s).len() as int) =~= escaped_body(s) + quote);
    assert(escaped(s)[0] == '\'');
    assert(quote.subrange(1, quote.len() as int) =~= Seq::<char>::empty());
    assert(unquoted(Seq::<char>::empty(), QuoteMode::Outside) == Some(Seq::<char>::empty()));
    assert(unquoted(quote, QuoteMode::Single) == Some(Seq::<char>::empty()));
    assert(s + Seq::<char>::empty() =~= s);
}

/// A command as it is run by a login shell on a remote host.
pub open spec fn remote_command(command: Seq<char>) -> Seq<char> {
    "bash -lc "@ + escaped(command)
}

/// A command as it is run by a login shell on a remote host.
pub fn remote_shell_command(command: &str) -> (r: String)
    ensures
        r@ == remote_command(command@),
{
    text::joined("bash -lc ", shell_escape(command).as_str())
}

/// The configuration file that SSH is pointed to by `SYMPHONY_SSH_CONFIG`.
pub open spec fn ssh_config(env: Map<Seq<char>, Seq<char>>) -> Option<Seq<char>> {
    if env.contains_key("SYMPHONY_SSH_CONFIG"@) {
        text::filled(Some(env["SYMPHONY_SSH_CONFIG"@]))
    } else {
        None
    }
}

/// The arguments that SSH is called with: the configuration file where there is one, `-T`, the port
/// where the host has one, the destination and the command.
pub open spec fn args_of(
    host: Seq<char>,
    command: Seq<char>,
    config: Option<Seq<char>>,
) -> Seq<Seq<char>> {
    let target = target_of(host);
    let start = match config {
        Some(file) => Seq::empty().push("-F"@).push(file),
        None => Seq::empty(),
    };
    let quiet = start.push("-T"@);
    let ported = match target.port {
        Some(port) => quiet.push("-p"@).push(port),
        None => quiet,
    };
    ported.push(target.destination).push(remote_command(command))
}

fn maybe_put_config(args: &mut Vec<String>, env: &Environment)
    ensures
        text::texts(final(args)@) == match ssh_config(env.vars@) {
            Some(file) => text::texts(old(args)@).push("-F"@).push(file),
            None => text::texts(old(args)@),
        },
{
    if let Some(value) = env.vars.get("SYMPHONY_SSH_CONFIG") {
        let trimmed = text::trim(value.as_str());
        proof {
            text::lemma_trimmed_empty(value@);
        }
        if !trimmed.is_empty() {
            text::push_text(args, "-F".to_owned());
            text::push_text(args, trimmed.to_owned());
        }
    }
}

/// The arguments that SSH is called with.
pub fn ssh_args(host: &str, command: &str, env: &Environment) -> (r: Vec<String>)
    ensures
        text::texts(r@) == args_of(host@, command@, ssh_config(env.vars@)),
{
    let target = parse_target(host);
    let mut args: Vec<String> = Vec::new();
    proof {
        assert(text::texts(args@) =~= Seq::<Seq<char>>::empty());
    }
    maybe_put_config(&mut args, env);
    text::push_text(&mut args, "-T".to_owned());
    let SshTarget { destination, port } = target;
    if let Some(port) = port {
        text::push_text(&mut args, "-p".to_owned());
        text::push_text(&mut args, port);
    }
    text::push_text(&mut args, destination);
    text::push_text(&mut args, remote_shell_command(command));
    args
}

/// The text of bytes, with what is no UTF-8 replaced, as std does it.
pub uninterp spec fn lossy_text(bytes: Seq<u8>) -> Seq<char>;

/// `String::from_utf8_lossy`: the text of bytes, with what is no UTF-8 replaced. The contract names
/// the result; it is a function of the bytes alone.
#[verifier::external_body]
pub(crate) fn from_utf8_lossy(bytes: &[u8]) -> (r: String)
    ensures
        r@ == lossy_text(bytes@),
{
    String::from_utf8_lossy(bytes).into_owned()
}

/// What a command wrote: its output, then its errors.
pub fn combined_output(stdout: &[u8], stderr: &[u8]) -> (r: String)
    ensures
        r@ == lossy_text(stdout@) + lossy_text(stderr@),
{
    let mut output = from_utf8_lossy(stdout);
    output.append(from_utf8_lossy(stderr).as_str());
    output
}

/// What running a command to its end gave: all that it wrote, and its exit code; a command that a
/// signal ended counts as -1.
pub fn command_result(stdout: &[u8], stderr: &[u8], code: Option<i32>) -> (r: (String, i32))
    ensures
        r.0@ == lossy_text(stdout@) + lossy_text(stderr@),
        r.1 == match code {
            Some(code) => code,
            None => -1i32,
        },
{
    let status: i32 = match code {
        Some(code) => code,
        None => -1,
    };
    (combined_output(stdout, stderr), status)
}

/// What looking for the SSH program gave.
#[derive(Debug)]
pub enum SshLookup {
    Failed(String),
    Finished { found: bool, stdout: Vec<u8>, stderr: Vec<u8> },
}

/// The path of the SSH program, given whether the search worked and what it wrote.
pub open spec fn located_executable(found: bool, stdout: Seq<char>, stderr: Seq<char>) -> Result<
    Seq<char>,
    ErrorView,
> {
    if !found {
        Err(ErrorView::Ssh("ssh_not_found: "@ + text::trimmed(stdout + stderr)))
    } else if text::blank(stdout) {
        Err(ErrorView::Ssh("ssh_not_found: empty lookup result"@))
    } else {
        Ok(text::trimmed(stdout))
    }
}

/// The path of the SSH program, given whether the search worked and what it wrote.
pub fn executable_from_lookup(found: bool, stdout: &str, stderr: &str) -> (r: Result<
    String,
    SymphonyError,
>)
    ensures
        error::result_is(r, located_executable(found, stdout@, stderr@)),
{
    if !found {
        let output = text::joined(stdout, stderr);
        return Err(
            SymphonyError::Ssh(text::joined("ssh_not_found: ", text::trim(output.as_str()))),
        );
    }
    let path = text::trim(stdout);
    proof {
        text::lemma_trimmed_empty(stdout@);
    }
    if path.is_empty() {
        return Err(SymphonyError::Ssh("ssh_not_found: empty lookup result".to_owned()));
    }
    Ok(path.to_owned())
}

/// The path of the SSH program, given what looking for it gave.
pub fn ssh_executable(lookup: &SshLookup) -> (r: Result<String, SymphonyError>)
    ensures
        match lookup {
            SshLookup::Failed(reason) => r matches Err(error) && error@ == ErrorView::Ssh(
                "ssh_lookup_failed: "@ + reason@,
            ),
            SshLookup::Finished { found, stdout, stderr } => error::result_is(
                r,
                located_executable(*found, lossy_text(stdout@), lossy_text(stderr@)),
            ),
        },
{
    match lookup {
        SshLookup::Failed(reason) => Err(
            SymphonyError::Ssh(text::joined("ssh_lookup_failed: ", reason.as_str())),
        ),
        SshLookup::Finished { found, stdout, stderr } => executable_from_lookup(
            *found,
            from_utf8_lossy(stdout).as_str(),
            from_utf8_lossy(stderr).as_str(),
        ),
    }
}

/// The error where a remote command could not be run.
pub fn run_failed(reason: &str) -> (r: SymphonyError)
    ensures
        r@ == ErrorView::Ssh("ssh_run_failed: "@ + reason@),
{
    SymphonyError::Ssh(text::joined("ssh_run_failed: ", reason))
}

/// The error where a remote command could not be started.
pub fn start_port_failed(reason: &str) -> (r: SymphonyError)
    ensures
        r@ == ErrorView::Ssh("ssh_start_port_failed: "@ + reason@),
{
    SymphonyError::Ssh(text::joined("ssh_start_port_failed: ", reason))
}

/// A host splits into destination and port without loss: put together again they are the host.
pub proof fn lemma_target_keeps_host(host: Seq<char>)
    ensures
        match target_of(host).port {
            Some(port) => host == target_of(host).destination + ":"@ + port && port_like(port),
            None => host == target_of(host).destination,
        },
{
    reveal_strlit(":");
    text::lemma_find_char(host, 0, ']');
    text::lemma_find_char(host, 0, ':');
    if let Some(port) = target_of(host).port {
        assert(host =~= target_of(host).destination + ":"@ + port);
    }
}

proof fn lemma_first_place(s: Seq<char>, i: int, c: char, k: int)
    requires
        0 <= i <= k <= s.len(),
        k < s.len() ==> s[k] == c,
        forall|j: int| i <= j < k ==> (#[trigger] s[j]) != c,
    ensures
        text::find_char(s, i, c) == k,
{
    text::lemma_find_char(s, i, c);
}

/// A name, a colon and digits lead to the name at the port.
pub proof fn lemma_port_is_split_off(name: Seq<char>, port: Seq<char>)
    requires
        name.len() > 0,
        name[0] != '[',
        forall|i: int| 0 <= i < name.len() ==> (#[trigger] name[i]) != ':',
        port.len() > 0,
        forall|i: int| 0 <= i < port.len() ==> '0' <= #[trigger] port[i] <= '9',
    ensures
        target_of(name + seq![':'] + port) == (TargetView { destination: name, port: Some(port) }),
{
    let host = name + seq![':'] + port;
    let n = name.len() as int;
    assert forall|j: int| 0 <= j < n implies (#[trigger] host[j]) != ':' by {
        assert(host[j] == name[j]);
    }
    assert forall|j: int| n + 1 <= j < host.len() implies (#[trigger] host[j]) != ':' by {
        assert(host[j] == port[j - n - 1]);
    }
    lemma_first_place(host, 0, ':', n);
    lemma_first_place(host, n + 1, ':', host.len() as int);
    assert(host[0] == name[0]);
    assert(tail(host, n + 1) =~= port);
    assert(head(host, n) =~= name);
}

/// An address in brackets, a colon and digits lead to the address at the port.
pub proof fn lemma_bracketed_port_is_split_off(address: Seq<char>, port: Seq<char>)
    requires
        forall|i: int| 0 <= i < address.len() ==> (#[trigger] address[i]) != ']',
        port.len() > 0,
        forall|i: int| 0 <= i < port.len() ==> '0' <= #[trigger] port[i] <= '9',
    ensures
        target_of(seq!['['] + address + seq![']'] + seq![':'] + port) == (TargetView {
            destination: seq!['['] + address + seq![']'],
            port: Some(port),
        }),
{
    let name = seq!['['] + address + seq![']'];
    let host = name + seq![':'] + port;
    assert(host =~= seq!['['] + address + seq![']'] + seq![':'] + port);
    let end = address.len() as int + 1;
    assert forall|j: int| 0 <= j < end implies (#[trigger] host[j]) != ']' by {
        if j > 0 {
            assert(host[j] == address[j - 1]);
        }
    }
    assert(host[end] == ']');
    lemma_first_place(host, 0, ']', end);
    assert(tail(host, end + 2) =~= port);
    assert(head(host, end + 1) =~= name);
}

/// A host without a colon, or with two and no bracket, has no port.
pub proof fn lemma_host_without_port(host: Seq<char>, i: int, j: int)
    requires
        host.len() > 0 ==> host[0] != '[',
        (forall|k: int| 0 <= k < host.len() ==> (#[trigger] host[k]) != ':') || (0 <= i < j
            < host.len() && host[i] == ':' && host[j] == ':'),
    ensures
        target_of(host) == (TargetView { destination: host, port: None }),
{
    text::lemma_find_char(host, 0, ':');
    let colon = text::find_char(host, 0, ':');
    if colon < host.len() {
        text::lemma_find_char(host, colon + 1, ':');
    }
}

/// The model of a target has its destination and its port.
pub proof fn lemma_target_is_modelled(target: SshTarget)
    ensures
        target@.destination == target.destination@,
        target.port is Some ==> target@.port == Some(target.port->0@),
        target.port is None ==> target@.port is None,
{
}

/// A command is run by a login shell, which reads it back as it was.
pub proof fn lemma_remote_shell_reads_command(command: Seq<char>)
    ensures
        ({
            let start = "bash -lc "@;
            let whole = remote_command(command);
            &&& whole.len() >= start.len()
            &&& whole.subrange(0, start.len() as int) == start
            &&& unquoted(whole.subrange(start.len() as int, whole.len() as int), QuoteMode::Outside)
                == Some(command)
        }),
{
    let start = "bash -lc "@;
    let whole = remote_command(command);
    lemma_shell_reads_escaped_text(command);
    assert(whole.subrange(0, start.len() as int) =~= start);
    assert(whole.subrange(start.len() as int, whole.len() as int) =~= escaped(command));
}

/// SSH is called with the destination and the command last; before them stand `-T`, the configuration
/// file after `-F` where there is one, and the port after `-p` where the host has one.
pub proof fn lemma_ssh_is_called(
    host: Seq<char>,
    command: Seq<char>,
    file: Seq<char>,
    port: Seq<char>,
)
    ensures
        ({
            let args = args_of(host, command, None);
            let n = args.len();
            &&& n >= 3
            &&& args[n - 1] == remote_command(command)
            &&& args[n - 2] == target_of(host).destination
            &&& args[0] == "-T"@
            &&& target_of(host).port == Some(port) ==> n == 5 && args[1] == "-p"@ && args[2] == port
            &&& target_of(host).port is None ==> n == 3
            &&& args_of(host, command, Some(file)) == seq!["-F"@, file] + args
        }),
{
    let args = args_of(host, command, None);
    assert(args_of(host, command, Some(file)) =~= seq!["-F"@, file] + args);
}

/// The configuration file is the one that the environment names, without the white space around it.
pub proof fn lemma_ssh_config_is_named(env: Map<Seq<char>, Seq<char>>)
    ensures
        env.contains_key("SYMPHONY_SSH_CONFIG"@) && text::trimmed(env["SYMPHONY_SSH_CONFIG"@]).len()
            > 0 ==> ssh_config(env) == Some(text::trimmed(env["SYMPHONY_SSH_CONFIG"@])),
        env.contains_key("SYMPHONY_SSH_CONFIG"@) && text::trimmed(env["SYMPHONY_SSH_CONFIG"@]).len()
            == 0 ==> ssh_config(env) is None,
        !env.contains_key("SYMPHONY_SSH_CONFIG"@) ==> ssh_config(env) is None,
{
    text::lemma_trimmed_empty(env["SYMPHONY_SSH_CONFIG"@]);
}

/// The SSH program is where the search found it; a search that found nothing, or that wrote nothing,
/// is an error.
pub proof fn lemma_ssh_is_located(stdout: Seq<char>, stderr: Seq<char>)
    ensures
        text::trimmed(stdout).len() > 0 ==> located_executable(true, stdout, stderr) == Ok::<
            Seq<char>,
            ErrorView,
        >(text::trimmed(stdout)),
        text::trimmed(stdout).len() == 0 ==> located_executable(true, stdout, stderr) == Err::<
            Seq<char>,
            ErrorView,
        >(ErrorView::Ssh("ssh_not_found: empty lookup result"@)),
        located_executable(false, stdout, stderr) == Err::<Seq<char>, ErrorView>(
            ErrorView::Ssh("ssh_not_found: "@ + text::trimmed(stdout + stderr)),
        ),
{
    text::lemma_trimmed_empty(stdout);
}

} // verus!
