//! Tagged output lines and the decoding policy.
//!
//! Every line a deploy script writes is tagged with the stream it came from.
//! Lines are carried as UTF-8 text; a raw line that is not valid UTF-8 is
//! dropped rather than failing the run. The projection [`channel_texts`]
//! reads the per-stream text sequence back out of a merged line sequence, and
//! [`decoded_texts`] says exactly which texts a sequence of raw lines
//! contributes under the drop policy.

use vstd::prelude::*;
use vstd::utf8::decode_utf8;
use vstd::utf8::valid_utf8;

verus! {

/// The stream a line arrived on.
#[derive(Clone, Copy, PartialEq, Eq, Structural, Debug)]
pub enum Channel {
    Stdout,
    Stderr,
}

/// The stream `c` is not.
pub open spec fn other_channel(c: Channel) -> Channel {
    match c {
        Channel::Stdout => Channel::Stderr,
        Channel::Stderr => Channel::Stdout,
    }
}

/// One line of merged output, tagged with its stream.
pub enum OutputLine {
    Stdout(String),
    Stderr(String),
}

impl OutputLine {
    /// The stream this line came from.
    pub open spec fn channel(self) -> Channel {
        match self {
            OutputLine::Stdout(_) => Channel::Stdout,
            OutputLine::Stderr(_) => Channel::Stderr,
        }
    }

    /// The line's text.
    pub open spec fn text(self) -> Seq<char> {
        match self {
            OutputLine::Stdout(t) => t@,
            OutputLine::Stderr(t) => t@,
        }
    }

    /// Tags `text` with `channel`.
    pub fn new(channel: Channel, text: String) -> (r: OutputLine)
        ensures
            r.channel() == channel,
            r.text() == text@,
    {
        match channel {
            Channel::Stdout => OutputLine::Stdout(text),
            Channel::Stderr => OutputLine::Stderr(text),
        }
    }

    /// The stream this line came from.
    pub fn channel_of(&self) -> (c: Channel)
        ensures
            c == self.channel(),
    {
        match self {
            OutputLine::Stdout(_) => Channel::Stdout,
            OutputLine::Stderr(_) => Channel::Stderr,
        }
    }

    /// The line's text.
    pub fn text_str(&self) -> (t: &str)
        ensures
            t@ == self.text(),
    {
        match self {
            OutputLine::Stdout(t) => t.as_str(),
            OutputLine::Stderr(t) => t.as_str(),
        }
    }
}

impl Clone for OutputLine {
    /// A clone carries the same tag and the same text.
    fn clone(&self) -> (r: Self)
        ensures
            r == *self,
    {
        match self {
            OutputLine::Stdout(t) => OutputLine::Stdout(t.clone()),
            OutputLine::Stderr(t) => OutputLine::Stderr(t.clone()),
        }
    }
}

/// Relies on `String::from_utf8` from std: it returns the string decoded
/// from the bytes when they are valid UTF-8, and an error otherwise.
#[verifier::external_body]
fn utf8_line(bytes: &Vec<u8>) -> (r: Option<String>)
    ensures
        r is Some <==> valid_utf8(bytes@),
        r matches Some(s) ==> s@ == decode_utf8(bytes@),
{
    String::from_utf8(bytes.clone()).ok()
}

/// The texts that a sequence of raw lines contributes: each line that is
/// valid UTF-8 decodes to one text, in order; the rest are dropped.
pub open spec fn decoded_texts(raw: Seq<Seq<u8>>) -> Seq<Seq<char>>
    decreases raw.len(),
{
    if raw.len() == 0 {
        Seq::empty()
    } else {
        let rest = decoded_texts(raw.drop_last());
        if valid_utf8(raw.last()) {
            rest.push(decode_utf8(raw.last()))
        } else {
            rest
        }
    }
}

/// Decoding a concatenation decodes each part in place.
pub proof fn lemma_decoded_texts_concat(a: Seq<Seq<u8>>, b: Seq<Seq<u8>>)
    ensures
        decoded_texts(a + b) == decoded_texts(a) + decoded_texts(b),
    decreases b.len(),
{
    if b.len() == 0 {
        assert(a + b =~~= a);
        assert(decoded_texts(a) + decoded_texts(b) =~~= decoded_texts(a));
    } else {
        assert((a + b).drop_last() =~~= a + b.drop_last());
        assert((a + b).last() == b.last());
        lemma_decoded_texts_concat(a, b.drop_last());
        assert(decoded_texts(a + b) =~~= decoded_texts(a) + decoded_texts(b));
    }
}

/// The texts of the lines of one stream, in order, read out of a merged
/// sequence.
pub open spec fn channel_texts(lines: Seq<OutputLine>, c: Channel) -> Seq<Seq<char>>
    decreases lines.len(),
{
    if lines.len() == 0 {
        Seq::empty()
    } else {
        let rest = channel_texts(lines.drop_last(), c);
        if lines.last().channel() == c {
            rest.push(lines.last().text())
        } else {
            rest
        }
    }
}

/// Projecting a concatenation projects each part in place: what one stream
/// contributed is unaffected by lines appended for either stream.
pub proof fn lemma_channel_texts_concat(a: Seq<OutputLine>, b: Seq<OutputLine>, c: Channel)
    ensures
        channel_texts(a + b, c) == channel_texts(a, c) + channel_texts(b, c),
    decreases b.len(),
{
    if b.len() == 0 {
        assert(a + b =~= a);
        assert(channel_texts(a, c) + channel_texts(b, c) =~~= channel_texts(a, c));
    } else {
        assert((a + b).drop_last() =~= a + b.drop_last());
        assert((a + b).last() == b.last());
        lemma_channel_texts_concat(a, b.drop_last(), c);
        assert(channel_texts(a + b, c) =~~= channel_texts(a, c) + channel_texts(b, c));
    }
}

/// Lines that all belong to one stream contribute nothing to the other.
pub proof fn lemma_channel_texts_uniform(lines: Seq<OutputLine>, c: Channel, d: Channel)
    requires
        forall|i: int| 0 <= i < lines.len() ==> (#[trigger] lines[i]).channel() == c,
        d != c,
    ensures
        channel_texts(lines, d) == Seq::<Seq<char>>::empty(),
    decreases lines.len(),
{
    if lines.len() > 0 {
        assert(forall|i: int|
            0 <= i < lines.drop_last().len() ==> (#[trigger] lines.drop_last()[i]).channel()
                == c);
        lemma_channel_texts_uniform(lines.drop_last(), c, d);
    }
}

/// Decodes a batch of raw lines from one stream into tagged lines, dropping
/// those that are not valid UTF-8.
pub fn decode_lines(channel: Channel, raw: &Vec<Vec<u8>>) -> (out: Vec<OutputLine>)
    ensures
        channel_texts(out@, channel) == decoded_texts(raw.deep_view()),
        forall|i: int| 0 <= i < out@.len() ==> (#[trigger] out@[i]).channel() == channel,
{
    let mut out: Vec<OutputLine> = Vec::new();
    let mut i: usize = 0;
    proof {
        assert(raw.deep_view().take(0) =~~= Seq::<Seq<u8>>::empty());
    }
    while i < raw.len()
        invariant
            i <= raw.len(),
            channel_texts(out@, channel) == decoded_texts(raw.deep_view().take(i as int)),
            forall|j: int| 0 <= j < out@.len() ==> (#[trigger] out@[j]).channel() == channel,
        decreases raw.len() - i,
    {
        let ghost out_pre = out@;
        let ghost taken_pre = raw.deep_view().take(i as int);
        match utf8_line(&raw[i]) {
            Some(text) => {
                out.push(OutputLine::new(channel, text));
                proof {
                    assert(out@.drop_last() =~= out_pre);
                }
            },
            None => {},
        }
        i = i + 1;
        proof {
            let taken = raw.deep_view().take(i as int);
            assert(taken.drop_last() =~~= taken_pre);
            assert(taken.last() == raw@[i - 1].deep_view());
            assert(raw@[i - 1].deep_view() =~= raw@[i - 1]@);
            assert(channel_texts(out@, channel) =~~= decoded_texts(taken));
        }
    }
    proof {
        assert(raw.deep_view().take(raw@.len() as int) =~~= raw.deep_view());
    }
    out
}

/// Copies a sequence of tagged lines; tags and texts carry over unchanged.
pub fn copy_lines(v: &Vec<OutputLine>) -> (r: Vec<OutputLine>)
    ensures
        r@ == v@,
{
    let r = v.clone();
    proof {
        assert(r@ =~= v@);
    }
    r
}

} // verus!
