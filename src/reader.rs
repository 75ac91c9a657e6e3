use vstd::prelude::*;

use vstd::utf8::{decode_utf8, valid_utf8};

verus! {

pub const CR: u8 = 13;

pub const LF: u8 = 10;

/// The character whose code point is the byte's value.
pub open spec fn byte_char(b: u8) -> char {
    b as char
}

/// The text of a line: its UTF-8 reading where the bytes are valid UTF-8, else
/// one character per byte, of the same value.
pub open spec fn decode_spec(bytes: Seq<u8>) -> Seq<char> {
    if valid_utf8(bytes) {
        decode_utf8(bytes)
    } else {
        bytes.map_values(|b: u8| byte_char(b))
    }
}

/// One byte more of the stream: a line feed right after a carriage return ends
/// the pending line, which comes out without the carriage return; any other
/// byte, a lone line feed included, is kept.
pub open spec fn step(pending: Seq<u8>, b: u8) -> (Seq<u8>, Option<Seq<u8>>) {
    if b == LF && pending.len() > 0 && pending.last() == CR {
        (seq![], Some(pending.drop_last()))
    } else {
        (pending.push(b), None)
    }
}

/// The lines completed while `data` arrives after `pending`, and what is left
/// pending after it.
pub open spec fn frame(pending: Seq<u8>, data: Seq<u8>) -> (Seq<Seq<u8>>, Seq<u8>)
    decreases data.len(),
{
    if data.len() == 0 {
        (seq![], pending)
    } else {
        let (lines, p) = frame(pending, data.drop_last());
        let (q, out) = step(p, data.last());
        match out {
            Some(l) => (lines.push(l), q),
            None => (lines, q),
        }
    }
}

/// Relies on `std::str::from_utf8`: it succeeds exactly on valid UTF-8 and then
/// holds the characters that the bytes encode.
#[verifier::external_body]
fn utf8_text(b: &[u8]) -> (r: Option<&str>)
    ensures
        r is Some <==> valid_utf8(b@),
        r matches Some(t) ==> t@ == decode_utf8(b@),
{
    std::str::from_utf8(b).ok()
}

/// Relies on `String`'s `FromIterator<char>`: the characters in their order.
#[verifier::external_body]
fn string_of_chars(v: Vec<char>) -> (r: String)
    ensures
        r@ == v@,
{
    v.into_iter().collect()
}

/// Decodes a line, falling back to one character per byte where the bytes are
/// not valid UTF-8; never fails.
pub fn decode_line(bytes: &[u8]) -> (r: String)
    ensures
        r@ == decode_spec(bytes@),
{
    match utf8_text(bytes) {
        Some(t) => t.to_owned(),
        None => {
            let mut chars: Vec<char> = Vec::new();
            let mut i: usize = 0;
            while i < bytes.len()
                invariant
                    0 <= i <= bytes@.len(),
                    chars@ == bytes@.subrange(0, i as int).map_values(|b: u8| byte_char(b)),
                decreases bytes@.len() - i,
            {
                chars.push(bytes[i] as char);
                i = i + 1;
                assert(chars@ =~= bytes@.subrange(0, i as int).map_values(|b: u8| byte_char(b)));
            }
            assert(bytes@.subrange(0, i as int) =~= bytes@);
            string_of_chars(chars)
        },
    }
}

/// Turns a byte stream, handed over in pieces of any size, into protocol
/// lines. Only a carriage return followed by a line feed ends a line.
pub struct IrcReader {
    pending: Vec<u8>,
}

impl View for IrcReader {
    type V = Seq<u8>;

    /// The bytes received since the last complete line.
    closed spec fn view(&self) -> Seq<u8> {
        self.pending@
    }
}

impl IrcReader {
    /// A reader that has received nothing yet.
    pub fn new() -> (r: IrcReader)
        ensures
            r@ == Seq::<u8>::empty(),
    {
        IrcReader { pending: Vec::new() }
    }

    /// Takes the next bytes of the stream and returns the lines that they
    /// complete, in order, decoded and without their terminator.
    pub fn feed(&mut self, data: &[u8]) -> (r: Vec<String>)
        ensures
            final(self)@ == frame(old(self)@, data@).1,
            r@.len() == frame(old(self)@, data@).0.len(),
            forall|j: int|
                0 <= j < r@.len() ==> #[trigger] r@[j]@ == decode_spec(frame(old(self)@, data@).0[j]),
    {
        let ghost start = self@;
        let mut out: Vec<String> = Vec::new();
        let mut i: usize = 0;
        assert(data@.subrange(0, 0) =~= Seq::<u8>::empty());
        while i < data.len()
            invariant
                0 <= i <= data@.len(),
                self@ == frame(start, data@.subrange(0, i as int)).1,
                out@.len() == frame(start, data@.subrange(0, i as int)).0.len(),
                forall|j: int|
                    0 <= j < out@.len() ==> #[trigger] out@[j]@ == decode_spec(
                        frame(start, data@.subrange(0, i as int)).0[j],
                    ),
            decreases data@.len() - i,
        {
            let ghost seen = data@.subrange(0, i as int);
            let ghost next = data@.subrange(0, i + 1);
            assert(next.drop_last() =~= seen);
            assert(next.last() == data@[i as int]);
            let b = data[i];
            let n = self.pending.len();
            if b == LF && n > 0 && self.pending[n - 1] == CR {
                self.pending.pop();
                let line = decode_line(self.pending.as_slice());
                self.pending.clear();
                out.push(line);
                assert(self.pending@ =~= Seq::<u8>::empty());
            } else {
                self.pending.push(b);
            }
            i = i + 1;
        }
        assert(data@.subrange(0, i as int) =~= data@);
        out
    }

    /// Ends the stream: a pending line that ends in a carriage return comes
    /// out without it, as the last line; anything else pending is dropped.
    pub fn finish(&mut self) -> (r: Option<String>)
        ensures
            final(self)@ == Seq::<u8>::empty(),
            old(self)@.len() > 0 && old(self)@.last() == CR ==> (r matches Some(l) && l@
                == decode_spec(old(self)@.drop_last())),
            !(old(self)@.len() > 0 && old(self)@.last() == CR) ==> r is None,
    {
        let n = self.pending.len();
        let r = if n > 0 && self.pending[n - 1] == CR {
            self.pending.pop();
            Some(decode_line(self.pending.as_slice()))
        } else {
            None
        };
        self.pending.clear();
        r
    }
}

/// True when no carriage return in `s` is directly followed by a line feed.
pub open spec fn no_crlf(s: Seq<u8>) -> bool {
    forall|i: int| 0 < i < s.len() ==> !(s[i - 1] == CR && #[trigger] s[i] == LF)
}

/// Bytes with no carriage return and line feed in a row, counting the pending
/// ones, complete no line: a lone line feed stays inside the line.
pub proof fn lemma_lone_line_feed_kept(pending: Seq<u8>, data: Seq<u8>)
    requires
        no_crlf(pending + data),
    ensures
        frame(pending, data) == (Seq::<Seq<u8>>::empty(), pending + data),
    decreases data.len(),
{
    if data.len() == 0 {
        assert(pending + data =~= pending);
    } else {
        let d = data.drop_last();
        assert forall|i: int| 0 < i < (pending + d).len() implies !((pending + d)[i - 1] == CR
            && #[trigger] (pending + d)[i] == LF) by {
            assert((pending + d)[i] == (pending + data)[i]);
            assert((pending + d)[i - 1] == (pending + data)[i - 1]);
        }
        lemma_lone_line_feed_kept(pending, d);
        let k = (pending + data).len() - 1;
        if k > 0 {
            assert(!((pending + data)[k - 1] == CR && (pending + data)[k] == LF));
        }
        assert((pending + d).push(data.last()) =~= pending + data);
        if (pending + d).len() > 0 {
            assert((pending + d).last() == (pending + data)[k - 1]);
        }
    }
}

/// A line followed by a carriage return and a line feed comes out whole, and
/// nothing is left pending.
pub proof fn lemma_line_completed(line: Seq<u8>)
    requires
        no_crlf(line.push(CR)),
    ensures
        frame(Seq::<u8>::empty(), line + seq![CR, LF]) == (seq![line], Seq::<u8>::empty()),
{
    let data = line + seq![CR, LF];
    let front = line.push(CR);
    assert(data.drop_last() =~= front);
    assert(Seq::<u8>::empty() + front =~= front);
    lemma_lone_line_feed_kept(Seq::<u8>::empty(), front);
    assert(front.drop_last() =~= line);
    assert(seq![].push(line) =~= seq![line]);
}

} // verus!
