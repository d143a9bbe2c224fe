//! The message type and the fixed-size frame codec.
//!
//! A message is a bounded sequence of text bytes together with a
//! 16-byte unique identifier. On the wire a message occupies exactly
//! [`CAPACITY`] bytes: the text, a single zero separator byte, the id,
//! and zero padding up to the capacity.

use vstd::prelude::*;

verus! {

/// Number of bytes of a message id.
pub const UUID_SIZE: usize = 16;

/// Number of bytes of the separator between text and id.
pub const SEP_SIZE: usize = 1;

/// Size in bytes of one wire frame.
pub const CAPACITY: usize = 128;

/// A message with a unique id to be sent over the flooding network.
///
/// Every `Msg` is bounded in size: the text, the id and one separator
/// byte together take up at most [`CAPACITY`] bytes, so that the
/// message always fits in one wire frame.
#[derive(Debug)]
pub struct Msg {
    /// The text carried by the message, as bytes.
    pub text: Vec<u8>,
    /// The 16-byte unique identifier, assigned once at creation.
    pub id: Vec<u8>,
}

/// Whether two messages carry the same text and the same id.
pub open spec fn msg_eq(a: Msg, b: Msg) -> bool {
    a.text@ == b.text@ && a.id@ == b.id@
}

impl PartialEq for Msg {
    fn eq(&self, other: &Msg) -> (r: bool) {
        bytes_eq(&self.text, &other.text) && bytes_eq(&self.id, &other.id)
    }
}

impl vstd::std_specs::cmp::PartialEqSpecImpl for Msg {
    open spec fn obeys_eq_spec() -> bool {
        true
    }

    open spec fn eq_spec(&self, other: &Msg) -> bool {
        msg_eq(*self, *other)
    }
}

impl Clone for Msg {
    /// A clone carries the same text and the same id as the original.
    fn clone(&self) -> (r: Msg)
        ensures
            msg_eq(r, *self),
    {
        Msg { text: clone_bytes(&self.text), id: clone_bytes(&self.id) }
    }
}

/// Compares two byte vectors by their contents.
pub(crate) fn bytes_eq(a: &Vec<u8>, b: &Vec<u8>) -> (r: bool)
    ensures
        r == (a@ == b@),
{
    if a.len() != b.len() {
        return false;
    }
    let n = a.len();
    let mut i: usize = 0;
    while i < n
        invariant
            i <= n,
            n == a@.len(),
            a@.len() == b@.len(),
            forall|k: int| 0 <= k < i ==> a@[k] == b@[k],
        decreases n - i,
    {
        if a[i] != b[i] {
            return false;
        }
        i = i + 1;
    }
    proof {
        assert(a@ =~= b@);
    }
    true
}

/// Copies a byte vector.
pub(crate) fn clone_bytes(v: &Vec<u8>) -> (r: Vec<u8>)
    ensures
        r@ == v@,
{
    let mut r: Vec<u8> = Vec::new();
    let n = v.len();
    let mut i: usize = 0;
    while i < n
        invariant
            i <= n,
            n == v@.len(),
            r@ == v@.subrange(0, i as int),
        decreases n - i,
    {
        r.push(v[i]);
        i = i + 1;
    }
    proof {
        assert(v@.subrange(0, n as int) =~= v@);
    }
    r
}

impl Msg {
    /// The size bound every constructed message satisfies.
    pub open spec fn wf(self) -> bool {
        &&& self.text@.len() + SEP_SIZE as int + UUID_SIZE as int <= CAPACITY as int
        &&& self.id@.len() == UUID_SIZE as int
    }
}

/// Failure to build a message from text: the text is too large to fit
/// in one frame together with the separator and the id.
#[derive(Debug, PartialEq, Eq, Structural)]
pub struct TryFromStringToMsgError;

/// Failure to decode a message from a wire frame.
#[derive(Debug, PartialEq, Eq, Structural)]
pub enum TryFromArrayToMsgError {
    /// The frame holds no zero separator byte at all.
    MissingSep,
    /// The first zero byte stands so late that fewer than 16 bytes
    /// follow it: the bytes after the separator form no valid id.
    CorruptUuid,
}

/// The frame that encodes `text` and `id`: the text bytes, one zero
/// separator, the id bytes, then zero padding up to [`CAPACITY`].
pub open spec fn spec_encode(text: Seq<u8>, id: Seq<u8>) -> Seq<u8> {
    Seq::new(
        CAPACITY as nat,
        |i: int|
            if i < text.len() {
                text[i]
            } else if i == text.len() {
                0u8
            } else if i < text.len() + SEP_SIZE as int + id.len() {
                id[i - text.len() - SEP_SIZE as int]
            } else {
                0u8
            },
    )
}

/// Whether `text` holds no zero byte, so that it cannot be mistaken
/// for the frame separator.
pub open spec fn no_zero(text: Seq<u8>) -> bool {
    forall|i: int| 0 <= i < text.len() ==> text[i] != 0
}

/// Whether the frame `f` decodes to exactly the text `text` and id `id`:
/// `text` is the prefix of `f` up to the first zero byte and `id` the
/// 16 bytes that follow that separator.
pub open spec fn decodes_to(f: Seq<u8>, text: Seq<u8>, id: Seq<u8>) -> bool {
    &&& f.len() == CAPACITY as int
    &&& text.len() + SEP_SIZE as int + UUID_SIZE as int <= CAPACITY as int
    &&& id.len() == UUID_SIZE as int
    &&& no_zero(text)
    &&& f[text.len() as int] == 0
    &&& text == f.subrange(0, text.len() as int)
    &&& id == f.subrange(
        text.len() + SEP_SIZE as int,
        text.len() + SEP_SIZE as int + UUID_SIZE as int,
    )
}

impl Msg {
    /// Builds a message from text bytes and an id, checking the size bound.
    pub fn new(text: Vec<u8>, id: Vec<u8>) -> (r: Result<Msg, TryFromStringToMsgError>)
        requires
            id@.len() == UUID_SIZE as int,
        ensures
            match r {
                Ok(m) => {
                    &&& text@.len() + SEP_SIZE as int + UUID_SIZE as int <= CAPACITY as int
                    &&& m.text@ == text@
                    &&& m.id@ == id@
                    &&& m.wf()
                },
                Err(e) => {
                    &&& text@.len() + SEP_SIZE as int + UUID_SIZE as int > CAPACITY as int
                    &&& e == TryFromStringToMsgError
                },
            },
    {
        if text.len() <= CAPACITY - SEP_SIZE - UUID_SIZE {
            Ok(Msg { text, id })
        } else {
            Err(TryFromStringToMsgError)
        }
    }

    /// Builds a message from text bytes, assigning a freshly generated id.
    ///
    /// Succeeds exactly when the text fits in one frame together with
    /// the separator and the id; nothing beyond its length is promised
    /// of the id, which is drawn at random.
    pub fn try_from_text(text: Vec<u8>) -> (r: Result<Msg, TryFromStringToMsgError>)
        ensures
            match r {
                Ok(m) => {
                    &&& text@.len() + SEP_SIZE as int + UUID_SIZE as int <= CAPACITY as int
                    &&& m.text@ == text@
                    &&& m.wf()
                },
                Err(e) => {
                    &&& text@.len() + SEP_SIZE as int + UUID_SIZE as int > CAPACITY as int
                    &&& e == TryFromStringToMsgError
                },
            },
    {
        let id = fresh_uuid();
        Msg::new(text, id)
    }

    /// Encodes the message as one wire frame of exactly [`CAPACITY`] bytes.
    ///
    /// The frame holds the text, a zero separator byte, the id, and
    /// zero padding up to the capacity.
    pub fn into_bytes(self) -> (r: Vec<u8>)
        requires
            self.wf(),
        ensures
            r@.len() == CAPACITY as int,
            r@ == spec_encode(self.text@, self.id@),
    {
        let ghost enc = spec_encode(self.text@, self.id@);
        let mut bytes: Vec<u8> = Vec::new();
        let n = self.text.len();
        let mut i: usize = 0;
        while i < n
            invariant
                i <= n,
                n == self.text@.len(),
                self.wf(),
                bytes@.len() == i,
                enc == spec_encode(self.text@, self.id@),
                forall|k: int| 0 <= k < i ==> bytes@[k] == enc[k],
            decreases n - i,
        {
            bytes.push(self.text[i]);
            i = i + 1;
        }
        bytes.push(0);
        let mut j: usize = 0;
        while j < UUID_SIZE
            invariant
                j <= UUID_SIZE,
                n == self.text@.len(),
                self.wf(),
                bytes@.len() == n + SEP_SIZE as int + j,
                enc == spec_encode(self.text@, self.id@),
                forall|k: int| 0 <= k < bytes@.len() ==> bytes@[k] == enc[k],
            decreases UUID_SIZE - j,
        {
            bytes.push(self.id[j]);
            j = j + 1;
        }
        while bytes.len() < CAPACITY
            invariant
                n + SEP_SIZE as int + UUID_SIZE as int <= bytes@.len() <= CAPACITY as int,
                n == self.text@.len(),
                self.wf(),
                enc == spec_encode(self.text@, self.id@),
                forall|k: int| 0 <= k < bytes@.len() ==> bytes@[k] == enc[k],
            decreases CAPACITY as int - bytes@.len(),
        {
            bytes.push(0);
        }
        proof {
            assert(bytes@ =~= enc);
        }
        bytes
    }

    /// Decodes one wire frame back into a message.
    ///
    /// The text is everything before the first zero byte; the 16 bytes
    /// after that separator are the id. Fails with `MissingSep` exactly
    /// when the frame holds no zero byte at all, and with `CorruptUuid`
    /// exactly when the first zero byte stands so late that fewer than
    /// 16 bytes follow it, so no id can be read.
    pub fn try_from_bytes(bytes: &Vec<u8>) -> (r: Result<Msg, TryFromArrayToMsgError>)
        requires
            bytes@.len() == CAPACITY as int,
        ensures
            match r {
                Ok(m) => m.wf() && decodes_to(bytes@, m.text@, m.id@),
                Err(e) => match e {
                    TryFromArrayToMsgError::MissingSep => forall|i: int|
                        0 <= i < CAPACITY as int ==> bytes@[i] != 0,
                    TryFromArrayToMsgError::CorruptUuid => {
                        &&& forall|i: int|
                            0 <= i <= CAPACITY as int - SEP_SIZE as int - UUID_SIZE as int
                                ==> bytes@[i] != 0
                        &&& exists|i: int|
                            {
                                &&& (CAPACITY as int - SEP_SIZE as int - UUID_SIZE as int) < i
                                    < CAPACITY as int
                                &&& bytes@[i] == 0
                            }
                    },
                },
            },
    {
        let n = CAPACITY;
        let mut sep: usize = 0;
        while sep < n && bytes[sep] != 0
            invariant
                bytes@.len() == CAPACITY as int,
                n == CAPACITY,
                sep <= n,
                forall|i: int| 0 <= i < sep ==> bytes@[i] != 0,
            decreases n - sep,
        {
            sep = sep + 1;
        }
        if sep == n {
            return Err(TryFromArrayToMsgError::MissingSep);
        }
        if sep > CAPACITY - SEP_SIZE - UUID_SIZE {
            proof {
                assert(bytes@[sep as int] == 0);
            }
            return Err(TryFromArrayToMsgError::CorruptUuid);
        }
        let mut text: Vec<u8> = Vec::new();
        let mut i: usize = 0;
        while i < sep
            invariant
                i <= sep,
                sep <= CAPACITY as int,
                bytes@.len() == CAPACITY as int,
                text@.len() == i,
                text@ == bytes@.subrange(0, i as int),
            decreases sep - i,
        {
            text.push(bytes[i]);
            i = i + 1;
        }
        let mut id: Vec<u8> = Vec::new();
        let mut j: usize = 0;
        while j < UUID_SIZE
            invariant
                j <= UUID_SIZE,
                sep + SEP_SIZE as int + UUID_SIZE as int <= CAPACITY as int,
                bytes@.len() == CAPACITY as int,
                id@.len() == j,
                id@ == bytes@.subrange(sep + SEP_SIZE as int, sep + SEP_SIZE as int + j),
            decreases UUID_SIZE - j,
        {
            id.push(bytes[sep + SEP_SIZE + j]);
            j = j + 1;
        }
        Ok(Msg { text, id })
    }
}

/// Round trip: a frame encoded from any text that fits in one frame
/// and holds no zero byte, together with any 16-byte id, decodes back
/// to exactly that text and id.
pub proof fn lemma_round_trip(text: Seq<u8>, id: Seq<u8>)
    requires
        text.len() + SEP_SIZE as int + UUID_SIZE as int <= CAPACITY as int,
        id.len() == UUID_SIZE as int,
        no_zero(text),
    ensures
        decodes_to(spec_encode(text, id), text, id),
{
    let f = spec_encode(text, id);
    assert(text =~= f.subrange(0, text.len() as int));
    assert(id =~= f.subrange(
        text.len() + SEP_SIZE as int,
        text.len() + SEP_SIZE as int + UUID_SIZE as int,
    ));
}

/// A frame decodes to at most one text/id pair: the first zero byte
/// determines where the text ends, so two successful decodings of the
/// same frame agree.
pub proof fn lemma_decodes_to_unique(f: Seq<u8>, t1: Seq<u8>, i1: Seq<u8>, t2: Seq<u8>, i2: Seq<u8>)
    requires
        decodes_to(f, t1, i1),
        decodes_to(f, t2, i2),
    ensures
        t1 == t2,
        i1 == i2,
{
    if t1.len() < t2.len() {
        let k = t1.len() as int;
        assert(t2[k] == f.subrange(0, t2.len() as int)[k]);
        assert(f.subrange(0, t2.len() as int)[k] == f[k]);
        assert(false);
    }
    if t2.len() < t1.len() {
        let k = t2.len() as int;
        assert(t1[k] == f.subrange(0, t1.len() as int)[k]);
        assert(f.subrange(0, t1.len() as int)[k] == f[k]);
        assert(false);
    }
    assert(t1 =~= t2);
    assert(i1 =~= i2);
}

/// Relies on `uuid::Uuid::new_v4`: a freshly generated random id of
/// exactly [`UUID_SIZE`] bytes. Nothing is promised of the byte values,
/// which are drawn from the operating system's random number generator.
#[verifier::external_body]
fn fresh_uuid() -> (r: Vec<u8>)
    ensures
        r@.len() == UUID_SIZE as int,
{
    uuid::Uuid::new_v4().into_bytes().to_vec()
}

} // verus!
