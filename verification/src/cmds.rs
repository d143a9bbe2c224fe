//! Parsing of operator instructions.
//!
//! One line of operator input is trimmed of surrounding ASCII
//! whitespace and split at its first space into a command word and an
//! argument. The argument is carried as bytes: what a connect address
//! means is the surrounding application's concern.

use vstd::prelude::*;

use crate::msg::bytes_eq;

verus! {

/// An operator instruction, as the node receives it.
#[derive(Debug)]
pub enum Command {
    /// Establish an outbound connection to the given address.
    Connect(Vec<u8>),
    /// Flood a new message with the given text to every peer.
    Broadcast(Vec<u8>),
    /// Shut down every current connection.
    Disconnect,
}

/// Failure to parse a line of operator input.
#[derive(Debug)]
pub enum ParseCommandError {
    /// The line names no known command; the unknown word is carried.
    InvalidCommand(Vec<u8>),
    /// No space separates the command word from its argument.
    MissingSep,
}

/// Whether `b` is an ASCII whitespace byte, as line trimming sees it.
pub open spec fn is_space(b: u8) -> bool {
    b == 32 || 9 <= b <= 13
}

/// `s` without its leading whitespace bytes.
pub open spec fn trim_left(s: Seq<u8>) -> Seq<u8>
    decreases s.len(),
{
    if s.len() == 0 {
        s
    } else if is_space(s[0]) {
        trim_left(s.drop_first())
    } else {
        s
    }
}

/// `s` without its trailing whitespace bytes.
pub open spec fn trim_right(s: Seq<u8>) -> Seq<u8>
    decreases s.len(),
{
    if s.len() == 0 {
        s
    } else if is_space(s.last()) {
        trim_right(s.drop_last())
    } else {
        s
    }
}

/// `s` without its surrounding whitespace bytes.
pub open spec fn spec_trim(s: Seq<u8>) -> Seq<u8> {
    trim_right(trim_left(s))
}

/// The bytes of the broadcast command word.
pub open spec fn kw_broadcast() -> Seq<u8> {
    seq![98u8, 114u8, 111u8, 97u8, 100u8, 99u8, 97u8, 115u8, 116u8]
}

/// The bytes of the connect command word.
pub open spec fn kw_connect() -> Seq<u8> {
    seq![99u8, 111u8, 110u8, 110u8, 101u8, 99u8, 116u8]
}

/// The bytes of the disconnect command word.
pub open spec fn kw_disconnect() -> Seq<u8> {
    seq![100u8, 105u8, 115u8, 99u8, 111u8, 110u8, 110u8, 101u8, 99u8, 116u8]
}

fn kw_broadcast_vec() -> (r: Vec<u8>)
    ensures
        r@ == kw_broadcast(),
{
    let mut r: Vec<u8> = Vec::new();
    r.push(98u8);
    r.push(114u8);
    r.push(111u8);
    r.push(97u8);
    r.push(100u8);
    r.push(99u8);
    r.push(97u8);
    r.push(115u8);
    r.push(116u8);
    proof {
        assert(r@ =~= kw_broadcast());
    }
    r
}

fn kw_connect_vec() -> (r: Vec<u8>)
    ensures
        r@ == kw_connect(),
{
    let mut r: Vec<u8> = Vec::new();
    r.push(99u8);
    r.push(111u8);
    r.push(110u8);
    r.push(110u8);
    r.push(101u8);
    r.push(99u8);
    r.push(116u8);
    proof {
        assert(r@ =~= kw_connect());
    }
    r
}

fn kw_disconnect_vec() -> (r: Vec<u8>)
    ensures
        r@ == kw_disconnect(),
{
    let mut r: Vec<u8> = Vec::new();
    r.push(100u8);
    r.push(105u8);
    r.push(115u8);
    r.push(99u8);
    r.push(111u8);
    r.push(110u8);
    r.push(110u8);
    r.push(101u8);
    r.push(99u8);
    r.push(116u8);
    proof {
        assert(r@ =~= kw_disconnect());
    }
    r
}

fn is_space_byte(b: u8) -> (r: bool)
    ensures
        r == is_space(b),
{
    b == 32 || (9 <= b && b <= 13)
}

/// Copies the bytes of `v` from `from` up to `to`.
fn copy_range(v: &Vec<u8>, from: usize, to: usize) -> (r: Vec<u8>)
    requires
        from <= to <= v@.len(),
    ensures
        r@ == v@.subrange(from as int, to as int),
{
    let mut r: Vec<u8> = Vec::new();
    let mut i: usize = from;
    while i < to
        invariant
            from <= i <= to <= v@.len(),
            r@ == v@.subrange(from as int, i as int),
        decreases to - i,
    {
        r.push(v[i]);
        proof {
            assert(v@.subrange(from as int, i as int).push(v@[i as int]) =~= v@.subrange(
                from as int,
                i as int + 1,
            ));
        }
        i = i + 1;
    }
    r
}

/// Removes the surrounding ASCII whitespace of one line of input.
fn trim_bytes(line: &Vec<u8>) -> (r: Vec<u8>)
    ensures
        r@ == spec_trim(line@),
{
    let n = line.len();
    let mut lo: usize = 0;
    proof {
        assert(line@.skip(0) =~= line@);
    }
    while lo < n && is_space_byte(line[lo])
        invariant
            lo <= n,
            n == line@.len(),
            trim_left(line@) == trim_left(line@.skip(lo as int)),
        decreases n - lo,
    {
        proof {
            assert(line@.skip(lo as int).drop_first() =~= line@.skip(lo as int + 1));
        }
        lo = lo + 1;
    }
    let ghost t = line@.skip(lo as int);
    proof {
        if lo < n {
            assert(trim_left(t) == t);
        } else {
            assert(t =~= Seq::<u8>::empty());
        }
        assert(trim_left(line@) == t);
    }
    let mut hi: usize = n;
    proof {
        assert(t.take(n as int - lo as int) =~= t);
    }
    while hi > lo && is_space_byte(line[hi - 1])
        invariant
            lo <= hi <= n,
            n == line@.len(),
            t == line@.skip(lo as int),
            trim_right(t) == trim_right(t.take(hi as int - lo as int)),
        decreases hi,
    {
        proof {
            let k = hi as int - lo as int;
            assert(t.take(k).last() == line@[hi - 1]);
            assert(t.take(k).drop_last() =~= t.take(k - 1));
        }
        hi = hi - 1;
    }
    proof {
        let k = hi as int - lo as int;
        if hi > lo {
            assert(t.take(k).last() == line@[hi - 1]);
            assert(trim_right(t.take(k)) == t.take(k));
        } else {
            assert(t.take(k) =~= Seq::<u8>::empty());
        }
        assert(trim_right(t) == t.take(k));
    }
    let r = copy_range(line, lo, hi);
    proof {
        assert(line@.subrange(lo as int, hi as int) =~= t.take(hi as int - lo as int));
    }
    r
}

/// What parsing one line must yield: the trimmed line splits at its
/// first space into a known command word and the argument the returned
/// command carries. A line without any space has no command word and
/// is refused, whatever it holds; an unknown command word is returned
/// in the error. The disconnect instruction ignores its argument.
pub open spec fn parses_to(line: Seq<u8>, r: Result<Command, ParseCommandError>) -> bool {
    let t = spec_trim(line);
    match r {
        Ok(c) => match c {
            Command::Broadcast(text) => t == kw_broadcast() + seq![32u8] + text@,
            Command::Connect(addr) => t == kw_connect() + seq![32u8] + addr@,
            Command::Disconnect => exists|rest: Seq<u8>| t == kw_disconnect() + seq![32u8] + rest,
        },
        Err(e) => match e {
            ParseCommandError::MissingSep => forall|k: int| 0 <= k < t.len() ==> t[k] != 32,
            ParseCommandError::InvalidCommand(w) => {
                &&& exists|rest: Seq<u8>| t == w@ + seq![32u8] + rest
                &&& forall|k: int| 0 <= k < w@.len() ==> w@[k] != 32
                &&& w@ != kw_broadcast()
                &&& w@ != kw_connect()
                &&& w@ != kw_disconnect()
            },
        },
    }
}

/// Parses one line of operator input, as [`parses_to`] describes.
pub fn parse_command(line: &Vec<u8>) -> (r: Result<Command, ParseCommandError>)
    ensures
        parses_to(line@, r),
{
    let t = trim_bytes(line);
    let n = t.len();
    let mut sp: usize = 0;
    while sp < n && t[sp] != 32
        invariant
            sp <= n,
            n == t@.len(),
            forall|k: int| 0 <= k < sp ==> t@[k] != 32,
        decreases n - sp,
    {
        sp = sp + 1;
    }
    if sp == n {
        proof {
            assert(parses_to(line@, Result::Err(ParseCommandError::MissingSep)));
        }
        return Err(ParseCommandError::MissingSep);
    }
    let word = copy_range(&t, 0, sp);
    let args = copy_range(&t, sp + 1, n);
    proof {
        assert(t@ =~= word@ + seq![32u8] + args@);
    }
    if bytes_eq(&word, &kw_broadcast_vec()) {
        proof {
            assert(t@ == kw_broadcast() + seq![32u8] + args@);
            assert(parses_to(line@, Result::Ok(Command::Broadcast(args))));
        }
        Ok(Command::Broadcast(args))
    } else if bytes_eq(&word, &kw_connect_vec()) {
        proof {
            assert(t@ == kw_connect() + seq![32u8] + args@);
            assert(parses_to(line@, Result::Ok(Command::Connect(args))));
        }
        Ok(Command::Connect(args))
    } else if bytes_eq(&word, &kw_disconnect_vec()) {
        proof {
            assert(t@ == kw_disconnect() + seq![32u8] + args@);
            assert(parses_to(line@, Result::Ok(Command::Disconnect)));
        }
        Ok(Command::Disconnect)
    } else {
        proof {
            assert(t@ == word@ + seq![32u8] + args@);
            assert(parses_to(line@, Result::Err(ParseCommandError::InvalidCommand(word))));
        }
        Err(ParseCommandError::InvalidCommand(word))
    }
}

} // verus!
