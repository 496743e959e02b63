use vstd::prelude::*;
use vstd::string::StrSliceExecFns;

use crate::error::ParseError;

verus! {

/// A decoded request.
#[derive(Debug, PartialEq, Eq)]
pub enum Command {
    /// Append the payload to the mailbox.
    Publish(String),
    /// Take the oldest payload out of the mailbox.
    Retrieve,
}

/// The mathematical value of a `Command`.
pub enum CommandModel {
    Publish(Seq<char>),
    Retrieve,
}

impl View for Command {
    type V = CommandModel;

    open spec fn view(&self) -> CommandModel {
        match self {
            Command::Publish(p) => CommandModel::Publish(p@),
            Command::Retrieve => CommandModel::Retrieve,
        }
    }
}

pub open spec fn publish_word() -> Seq<char> {
    seq!['P', 'U', 'B', 'L', 'I', 'S', 'H']
}

pub open spec fn retrieve_word() -> Seq<char> {
    seq!['R', 'E', 'T', 'R', 'I', 'E', 'V', 'E']
}

/// The line without its terminator: one trailing `'\n'`, then one trailing `'\r'`.
pub open spec fn strip_terminator(t: Seq<char>) -> Seq<char> {
    let a = if t.len() > 0 && t.last() == '\n' { t.drop_last() } else { t };
    if a.len() > 0 && a.last() == '\r' { a.drop_last() } else { a }
}

/// The grammar of one line: `RETRIEVE`, or `PUBLISH` followed by one space
/// and a non-empty payload taken verbatim up to the terminator.
pub open spec fn parse_line(t: Seq<char>) -> Result<CommandModel, ParseError> {
    let b = strip_terminator(t);
    let pw = publish_word().push(' ');
    let rw = retrieve_word().push(' ');
    if b.len() == 0 {
        Err(ParseError::EmptyLine)
    } else if b == retrieve_word() {
        Ok(CommandModel::Retrieve)
    } else if b.len() > pw.len() && b.subrange(0, pw.len() as int) == pw {
        Ok(CommandModel::Publish(b.subrange(pw.len() as int, b.len() as int)))
    } else if b == publish_word() || b == pw {
        Err(ParseError::MissingPayload)
    } else if b.len() >= rw.len() && b.subrange(0, rw.len() as int) == rw {
        Err(ParseError::UnexpectedPayload)
    } else {
        Err(ParseError::UnknownVerb)
    }
}

/// Whether the first `w.len()` characters of `s` are `w`.
fn has_prefix(s: &str, n: usize, w: &[char]) -> (r: bool)
    requires
        n == s@.len(),
    ensures
        r == (w@.len() <= n && s@.subrange(0, w@.len() as int) == w@),
{
    if w.len() > n {
        return false;
    }
    let mut i: usize = 0;
    while i < w.len()
        invariant
            w@.len() <= n == s@.len(),
            i <= w@.len(),
            s@.subrange(0, i as int) == w@.subrange(0, i as int),
        decreases w@.len() - i,
    {
        if s.get_char(i) != w[i] {
            proof {
                assert(s@.subrange(0, w@.len() as int)[i as int] != w@[i as int]);
            }
            return false;
        }
        proof {
            assert(s@.subrange(0, i + 1) =~= s@.subrange(0, i as int).push(s@[i as int]));
            assert(w@.subrange(0, i + 1) =~= w@.subrange(0, i as int).push(w@[i as int]));
        }
        i = i + 1;
    }
    proof {
        assert(w@.subrange(0, w@.len() as int) =~= w@);
    }
    true
}

/// Parses one line of text, terminator included or not, into a command.
pub fn parse(line: &str) -> (r: Result<Command, ParseError>)
    ensures
        match r {
            Ok(c) => parse_line(line@) == Ok::<CommandModel, ParseError>(c@),
            Err(e) => parse_line(line@) == Err::<CommandModel, ParseError>(e),
        },
{
    let n = line.unicode_len();
    let mut end: usize = n;
    if end > 0 && line.get_char(end - 1) == '\n' {
        end = end - 1;
    }
    if end > 0 && line.get_char(end - 1) == '\r' {
        end = end - 1;
    }
    let body = line.substring_char(0, end);
    proof {
        let t = line@;
        let a = if t.len() > 0 && t.last() == '\n' { t.drop_last() } else { t };
        assert(a =~= t.subrange(0, a.len() as int));
        assert(body@ =~= strip_terminator(t));
    }
    let pw: [char; 8] = ['P', 'U', 'B', 'L', 'I', 'S', 'H', ' '];
    let pv: [char; 7] = ['P', 'U', 'B', 'L', 'I', 'S', 'H'];
    let rw: [char; 9] = ['R', 'E', 'T', 'R', 'I', 'E', 'V', 'E', ' '];
    let rv: [char; 8] = ['R', 'E', 'T', 'R', 'I', 'E', 'V', 'E'];
    proof {
        assert(pw@ =~= publish_word().push(' '));
        assert(pv@ =~= publish_word());
        assert(rw@ =~= retrieve_word().push(' '));
        assert(rv@ =~= retrieve_word());
    }
    if end == 0 {
        return Err(ParseError::EmptyLine);
    }
    if end == 8 && has_prefix(body, end, rv.as_slice()) {
        proof {
            assert(body@.subrange(0, 8) =~= body@);
        }
        return Ok(Command::Retrieve);
    }
    if end > 8 && has_prefix(body, end, pw.as_slice()) {
        let payload = body.substring_char(8, end);
        return Ok(Command::Publish(payload.to_string()));
    }
    if end == 7 && has_prefix(body, end, pv.as_slice()) {
        proof {
            assert(body@.subrange(0, 7) =~= body@);
        }
        return Err(ParseError::MissingPayload);
    }
    if end == 8 && has_prefix(body, end, pw.as_slice()) {
        proof {
            assert(body@.subrange(0, 8) =~= body@);
        }
        return Err(ParseError::MissingPayload);
    }
    if has_prefix(body, end, rw.as_slice()) {
        return Err(ParseError::UnexpectedPayload);
    }
    proof {
        if body@ == retrieve_word() {
            assert(body@.subrange(0, 8) =~= body@);
        }
        if body@ == publish_word() {
            assert(body@.subrange(0, 7) =~= body@);
        }
        if body@ == publish_word().push(' ') {
            assert(body@.subrange(0, 8) =~= body@);
        }
    }
    Err(ParseError::UnknownVerb)
}

} // verus!
