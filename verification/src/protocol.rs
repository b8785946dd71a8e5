//! The line-oriented control protocol: `CLEAR` empties the rule snapshot,
//! `VRF <token>` sets the rule for the field `vrf_id`; anything else is
//! silently ignored. One command is dispatched per read, and a connection
//! reads until its first read error, which closes it.

use vstd::prelude::*;
use vstd::string::*;

use crate::fields::str_eq;
use crate::store::FilterStore;

verus! {

/// One decoded control command.
pub enum ControlCommand {
    /// Drop every rule.
    Clear,
    /// Require `value` for the field named `field`, overwriting an earlier
    /// rule for the same field.
    SetRule { field: String, value: String },
}

/// The mathematical model of a [`ControlCommand`].
pub enum CommandModel {
    Clear,
    SetRule { field: Seq<char>, value: Seq<char> },
}

impl View for ControlCommand {
    type V = CommandModel;

    open spec fn view(&self) -> CommandModel {
        match self {
            ControlCommand::Clear => CommandModel::Clear,
            ControlCommand::SetRule { field, value } => CommandModel::SetRule {
                field: field@,
                value: value@,
            },
        }
    }
}

/// The effect of one command on a rule snapshot.
pub open spec fn apply_command_model(
    m: Map<Seq<char>, Seq<char>>,
    c: CommandModel,
) -> Map<Seq<char>, Seq<char>> {
    match c {
        CommandModel::Clear => Map::empty(),
        CommandModel::SetRule { field, value } => m.insert(field, value),
    }
}

/// Whether `c` separates tokens: the white-space characters.
pub open spec fn is_space(c: char) -> bool {
    ||| c == ' '
    ||| c == '\t'
    ||| c == '\n'
    ||| c == '\r'
    ||| c == '\u{000B}'
    ||| c == '\u{000C}'
    ||| c == '\u{0085}'
    ||| c == '\u{00A0}'
    ||| c == '\u{1680}'
    ||| c == '\u{2000}'
    ||| c == '\u{2001}'
    ||| c == '\u{2002}'
    ||| c == '\u{2003}'
    ||| c == '\u{2004}'
    ||| c == '\u{2005}'
    ||| c == '\u{2006}'
    ||| c == '\u{2007}'
    ||| c == '\u{2008}'
    ||| c == '\u{2009}'
    ||| c == '\u{200A}'
    ||| c == '\u{2028}'
    ||| c == '\u{2029}'
    ||| c == '\u{202F}'
    ||| c == '\u{205F}'
    ||| c == '\u{3000}'
}

/// Decides [`is_space`].
pub fn is_space_char(c: char) -> (r: bool)
    ensures
        r == is_space(c),
{
    c == ' ' || c == '\t' || c == '\n' || c == '\r' || c == '\u{000B}' || c == '\u{000C}' || c
        == '\u{0085}' || c == '\u{00A0}' || c == '\u{1680}' || c == '\u{2000}' || c == '\u{2001}'
        || c == '\u{2002}' || c == '\u{2003}' || c == '\u{2004}' || c == '\u{2005}' || c
        == '\u{2006}' || c == '\u{2007}' || c == '\u{2008}' || c == '\u{2009}' || c == '\u{200A}'
        || c == '\u{2028}' || c == '\u{2029}' || c == '\u{202F}' || c == '\u{205F}' || c
        == '\u{3000}'
}

/// The index of the first non-space character at or after `i`, or the end
/// of `s`.
pub open spec fn skip_spaces(s: Seq<char>, i: int) -> int
    decreases s.len() - i,
{
    if i < 0 || i >= s.len() {
        s.len() as int
    } else if is_space(s[i]) {
        skip_spaces(s, i + 1)
    } else {
        i
    }
}

/// The index just past the token starting at `i`: the first space
/// character at or after `i`, or the end of `s`.
pub open spec fn token_end(s: Seq<char>, i: int) -> int
    decreases s.len() - i,
{
    if i < 0 || i >= s.len() {
        s.len() as int
    } else if is_space(s[i]) {
        i
    } else {
        token_end(s, i + 1)
    }
}

/// Computes [`skip_spaces`].
fn scan_spaces(s: &str, from: usize) -> (r: usize)
    requires
        from <= s@.len(),
    ensures
        r == skip_spaces(s@, from as int),
        from <= r <= s@.len(),
{
    let n = s.unicode_len();
    let mut i: usize = from;
    while i < n
        invariant
            from <= i <= n,
            n == s@.len(),
            skip_spaces(s@, from as int) == skip_spaces(s@, i as int),
        decreases n - i,
    {
        let c = s.get_char(i);
        if !is_space_char(c) {
            return i;
        }
        i += 1;
    }
    i
}

/// Computes [`token_end`].
fn scan_token(s: &str, from: usize) -> (r: usize)
    requires
        from <= s@.len(),
    ensures
        r == token_end(s@, from as int),
        from <= r <= s@.len(),
{
    let n = s.unicode_len();
    let mut i: usize = from;
    while i < n
        invariant
            from <= i <= n,
            n == s@.len(),
            token_end(s@, from as int) == token_end(s@, i as int),
        decreases n - i,
    {
        let c = s.get_char(i);
        if is_space_char(c) {
            return i;
        }
        i += 1;
    }
    i
}

/// What one chunk of control input means: the first token selects the
/// command; `CLEAR` clears, `VRF` with a second token sets the rule for
/// the field `vrf_id`, and everything else — a blank line, an unknown
/// first token, or `VRF` without a value — means nothing.
pub open spec fn spec_parse(s: Seq<char>) -> Option<CommandModel> {
    let a = skip_spaces(s, 0);
    let b = token_end(s, a);
    if a == b {
        None
    } else if s.subrange(a, b) == "CLEAR"@ {
        Some(CommandModel::Clear)
    } else if s.subrange(a, b) == "VRF"@ {
        let c = skip_spaces(s, b);
        let d = token_end(s, c);
        if c == d {
            None
        } else {
            Some(CommandModel::SetRule { field: "vrf_id"@, value: s.subrange(c, d) })
        }
    } else {
        None
    }
}

/// Decodes one chunk of control input, exactly as [`spec_parse`] reads it.
pub fn parse_command(input: &str) -> (r: Option<ControlCommand>)
    ensures
        match r {
            Some(cmd) => spec_parse(input@) == Some(cmd@),
            None => spec_parse(input@) is None,
        },
{
    let a = scan_spaces(input, 0);
    let b = scan_token(input, a);
    if a == b {
        return None;
    }
    let tok = input.substring_char(a, b);
    if str_eq(tok, "CLEAR") {
        return Some(ControlCommand::Clear);
    }
    if str_eq(tok, "VRF") {
        let c = scan_spaces(input, b);
        let d = scan_token(input, c);
        if c == d {
            return None;
        }
        let value = input.substring_char(c, d).to_owned();
        let field = "vrf_id".to_owned();
        return Some(ControlCommand::SetRule { field, value });
    }
    None
}

/// Applies one decoded command to the store, publishing exactly one new
/// complete snapshot.
pub fn apply_command(store: &mut FilterStore, cmd: ControlCommand)
    requires
        old(store).wf(),
    ensures
        final(store).wf(),
        final(store).published() == apply_command_model(old(store).published(), cmd@),
        final(store).history() == old(store).history().push(final(store).published()),
{
    match cmd {
        ControlCommand::Clear => store.clear(),
        ControlCommand::SetRule { field, value } => store.set_rule(field, value),
    }
}

/// Dispatches one chunk of control input: a recognized command publishes
/// its snapshot and the function returns `true`; malformed or unrecognized
/// input changes nothing, returns `false`, and is no error.
pub fn handle_line(store: &mut FilterStore, input: &str) -> (applied: bool)
    requires
        old(store).wf(),
    ensures
        final(store).wf(),
        match spec_parse(input@) {
            Some(c) => applied && final(store).published() == apply_command_model(
                old(store).published(),
                c,
            ) && final(store).history() == old(store).history().push(final(store).published()),
            None => !applied && *final(store) == *old(store),
        },
{
    match parse_command(input) {
        Some(cmd) => {
            apply_command(store, cmd);
            true
        }
        None => false,
    }
}

/// The control state of one connection: it reads and dispatches until its
/// first read error, which closes it for good.
#[derive(Clone, Copy, PartialEq, Eq, Structural, Debug)]
pub enum ConnState {
    Reading,
    Closed,
}

/// The connection state machine: a reading connection keeps reading while
/// reads succeed — whether or not the input was recognized — and closes on
/// a read error; a closed connection stays closed.
pub open spec fn conn_step_model(s: ConnState, read_ok: bool) -> ConnState {
    match s {
        ConnState::Reading => if read_ok {
            ConnState::Reading
        } else {
            ConnState::Closed
        },
        ConnState::Closed => ConnState::Closed,
    }
}

/// One step of a connection: on a successful read (`Some`, with the
/// decoded text) the input is dispatched and the connection keeps reading;
/// on a read error (`None`) it closes, with no effect on the store; a
/// closed connection does nothing.
pub fn handle_read(store: &mut FilterStore, state: ConnState, read: Option<&str>) -> (next:
    ConnState)
    requires
        old(store).wf(),
    ensures
        final(store).wf(),
        next == conn_step_model(state, read is Some),
        match (state, read) {
            (ConnState::Reading, Some(input)) => match spec_parse(input@) {
                Some(c) => final(store).published() == apply_command_model(
                    old(store).published(),
                    c,
                ) && final(store).history() == old(store).history().push(
                    final(store).published(),
                ),
                None => *final(store) == *old(store),
            },
            _ => *final(store) == *old(store),
        },
{
    match state {
        ConnState::Reading => match read {
            Some(input) => {
                handle_line(store, input);
                ConnState::Reading
            }
            None => ConnState::Closed,
        },
        ConnState::Closed => ConnState::Closed,
    }
}

/// Clearing is idempotent: one `CLEAR` leaves the snapshot empty, and a
/// second `CLEAR` leaves it empty again.
pub proof fn lemma_clear_idempotent(m: Map<Seq<char>, Seq<char>>)
    ensures
        apply_command_model(m, CommandModel::Clear) == Map::<Seq<char>, Seq<char>>::empty(),
        apply_command_model(apply_command_model(m, CommandModel::Clear), CommandModel::Clear)
            == Map::<Seq<char>, Seq<char>>::empty(),
{
}

} // verus!
