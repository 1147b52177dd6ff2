//! Mock body
use crate::text::{bytes_eq, bytes_to_vec};
use crate::wire::{encode_frame, grpc_frame};
use vstd::prelude::*;
use vstd::std_specs::cmp::PartialEqSpec;
use vstd::string::StringSliceAdditionalSpecFns;

verus! {

/// The bytes of a list of frames, one after the other.
pub open spec fn concat(frames: Seq<Seq<u8>>) -> Seq<u8>
    decreases frames.len(),
{
    if frames.len() == 0 {
        Seq::empty()
    } else {
        concat(frames.drop_last()) + frames.last()
    }
}

/// The frames that a list of byte vectors stands for.
pub open spec fn frames_of(chunks: Seq<Vec<u8>>) -> Seq<Seq<u8>> {
    Seq::new(chunks.len(), |i: int| chunks[i]@)
}

/// A body: nothing, one block of bytes, or an ordered list of frames.
///
/// Equality and length go by the bytes of the frames taken together, so a
/// body in several frames equals the body that holds the same bytes in one
/// block. The frames themselves decide how the body is cut up on the wire.
#[derive(Debug)]
pub enum Body {
    /// No content.
    Empty,
    /// One block of bytes.
    Full(Vec<u8>),
    /// Frames, in the order in which they are sent.
    Stream(Vec<Vec<u8>>),
}

impl View for Body {
    type V = Seq<u8>;

    open spec fn view(&self) -> Seq<u8> {
        concat(self.frames())
    }
}

/// The bytes of a prefix of the frames are a prefix of the bytes of all.
pub proof fn lemma_concat_prefix_len(frames: Seq<Seq<u8>>, i: int)
    requires
        0 <= i <= frames.len(),
    ensures
        concat(frames.subrange(0, i)).len() <= concat(frames).len(),
    decreases frames.len() - i,
{
    if i == frames.len() {
        assert(frames.subrange(0, i) =~= frames);
    } else {
        lemma_concat_prefix_len(frames, i + 1);
        assert(frames.subrange(0, i + 1).drop_last() =~= frames.subrange(0, i));
    }
}

/// Frames taken together are empty exactly when each of them is.
pub proof fn lemma_concat_empty(frames: Seq<Seq<u8>>)
    ensures
        concat(frames).len() == 0 <==> forall|i: int|
            0 <= i < frames.len() ==> (#[trigger] frames[i]).len() == 0,
    decreases frames.len(),
{
    if frames.len() > 0 {
        let rest = frames.drop_last();
        lemma_concat_empty(rest);
        if concat(frames).len() == 0 {
            assert forall|i: int| 0 <= i < frames.len() implies (#[trigger] frames[i]).len()
                == 0 by {
                if i < rest.len() {
                    assert(rest[i] == frames[i]);
                }
            }
        } else if frames.last().len() == 0 {
            let i = choose|i: int| 0 <= i < rest.len() && (#[trigger] rest[i]).len() != 0;
            assert(frames[i] == rest[i]);
        }
    }
}

/// The bytes of one frame alone are that frame.
pub proof fn lemma_concat_single(frame: Seq<u8>)
    ensures
        concat(seq![frame]) == frame,
{
    let s = seq![frame];
    assert(s.drop_last() =~= Seq::<Seq<u8>>::empty());
    assert(concat(s.drop_last()) =~= Seq::<u8>::empty());
    assert(concat(s) =~= frame);
}

/// Adding a frame at the end adds its bytes at the end.
pub proof fn lemma_concat_push(frames: Seq<Seq<u8>>, frame: Seq<u8>)
    ensures
        concat(frames.push(frame)) == concat(frames) + frame,
{
    assert(frames.push(frame).drop_last() =~= frames);
}

/// A body cut into frames equals the body that holds the frames' bytes in
/// one block, however the bytes were cut.
pub proof fn lemma_stream_equals_full(chunks: Vec<Vec<u8>>, whole: Vec<u8>)
    requires
        whole@ == concat(frames_of(chunks@)),
    ensures
        Body::Stream(chunks)@ == Body::Full(whole)@,
        Body::Stream(chunks).eq_spec(&Body::Full(whole)),
{
    lemma_concat_single(whole@);
}

/// A body without frames, and a body whose frames are all empty, equal the
/// empty body.
pub proof fn lemma_empty_body(body: Body)
    requires
        forall|i: int| 0 <= i < body.frames().len() ==> (#[trigger] body.frames()[i]).len() == 0,
    ensures
        body@ == (Body::Empty)@,
{
    lemma_concat_empty(body.frames());
    assert(body@ =~= Seq::<u8>::empty());
}

impl Body {
    /// The frames of the body, in order.
    pub open spec fn frames(&self) -> Seq<Seq<u8>> {
        match self {
            Body::Empty => Seq::empty(),
            Body::Full(chunk) => seq![chunk@],
            Body::Stream(chunks) => frames_of(chunks@),
        }
    }

    /// Creates an empty body.
    pub fn empty() -> (r: Body)
        ensures
            r == Body::Empty,
            r@.len() == 0,
    {
        Body::Empty
    }

    /// Creates a bytes body.
    pub fn bytes(body: Vec<u8>) -> (r: Body)
        ensures
            r == Body::Full(body),
            r@ == body@,
    {
        proof {
            lemma_concat_single(body@);
        }
        Body::Full(body)
    }

    /// Creates a bytes body. Same as `bytes`.
    pub fn raw(body: Vec<u8>) -> (r: Body)
        ensures
            r == Body::Full(body),
            r@ == body@,
    {
        Body::bytes(body)
    }

    /// Creates a body from the bytes of a text.
    pub fn text(body: &str) -> (r: Body)
        ensures
            r is Full,
            r.frames() == seq![body.spec_bytes()],
            r@ == body.spec_bytes(),
    {
        Body::bytes(bytes_to_vec(body.as_bytes()))
    }

    /// Creates a body of bytes in frames.
    pub fn bytes_stream(messages: Vec<Vec<u8>>) -> (r: Body)
        ensures
            r == Body::Stream(messages),
            r.frames() == frames_of(messages@),
    {
        Body::Stream(messages)
    }

    /// Creates a body of texts in frames: each frame holds the bytes of one
    /// text.
    pub fn text_stream(messages: &Vec<String>) -> (r: Body)
        ensures
            r is Stream,
            r.frames() == Seq::new(
                messages@.len(),
                |i: int| vstd::utf8::encode_utf8(messages@[i]@),
            ),
    {
        let mut chunks: Vec<Vec<u8>> = Vec::new();
        let mut i: usize = 0;
        while i < messages.len()
            invariant
                i <= messages.len(),
                frames_of(chunks@) == Seq::new(
                    i as nat,
                    |k: int| vstd::utf8::encode_utf8(messages@[k]@),
                ),
            decreases messages.len() - i,
        {
            let frame = bytes_to_vec(messages[i].as_str().as_bytes());
            let ghost before = frames_of(chunks@);
            chunks.push(frame);
            assert(frames_of(chunks@) =~= before.push(
                vstd::utf8::encode_utf8(messages@[i as int]@),
            ));
            assert(frames_of(chunks@) =~= Seq::new(
                (i + 1) as nat,
                |k: int| vstd::utf8::encode_utf8(messages@[k]@),
            ));
            i += 1;
        }
        Body::Stream(chunks)
    }

    /// Creates a JSON body from a value that is already encoded.
    pub fn json(encoded: Vec<u8>) -> (r: Body)
        ensures
            r == Body::Full(encoded),
            r@ == encoded@,
    {
        Body::bytes(encoded)
    }

    /// Creates a newline delimited JSON streaming body from values that are
    /// already encoded: each frame is one value followed by a line feed.
    pub fn json_lines_stream(messages: &Vec<Vec<u8>>) -> (r: Body)
        ensures
            r is Stream,
            r.frames() == Seq::new(messages@.len(), |i: int| messages@[i]@.push(10u8)),
    {
        let mut chunks: Vec<Vec<u8>> = Vec::new();
        let mut i: usize = 0;
        while i < messages.len()
            invariant
                i <= messages.len(),
                frames_of(chunks@) == Seq::new(i as nat, |k: int| messages@[k]@.push(10u8)),
            decreases messages.len() - i,
        {
            let mut line = bytes_to_vec(messages[i].as_slice());
            line.push(10u8);
            let ghost before = frames_of(chunks@);
            chunks.push(line);
            assert(frames_of(chunks@) =~= before.push(messages@[i as int]@.push(10u8)));
            assert(frames_of(chunks@) =~= Seq::new(
                (i + 1) as nat,
                |k: int| messages@[k]@.push(10u8),
            ));
            i += 1;
        }
        Body::Stream(chunks)
    }

    /// Creates a body that holds one encoded message in a gRPC frame.
    pub fn pb(message: &[u8]) -> (r: Body)
        ensures
            r is Full,
            r.frames() == seq![grpc_frame(message@)],
            r@ == grpc_frame(message@),
    {
        Body::bytes(encode_frame(message))
    }

    /// Creates a streaming body that holds each encoded message in a gRPC
    /// frame of its own.
    pub fn pb_stream(messages: &Vec<Vec<u8>>) -> (r: Body)
        ensures
            r is Stream,
            r.frames() == Seq::new(messages@.len(), |i: int| grpc_frame(messages@[i]@)),
    {
        let mut chunks: Vec<Vec<u8>> = Vec::new();
        let mut i: usize = 0;
        while i < messages.len()
            invariant
                i <= messages.len(),
                frames_of(chunks@) == Seq::new(i as nat, |k: int| grpc_frame(messages@[k]@)),
            decreases messages.len() - i,
        {
            let frame = encode_frame(messages[i].as_slice());
            let ghost before = frames_of(chunks@);
            chunks.push(frame);
            assert(frames_of(chunks@) =~= before.push(grpc_frame(messages@[i as int]@)));
            assert(frames_of(chunks@) =~= Seq::new(
                (i + 1) as nat,
                |k: int| grpc_frame(messages@[k]@),
            ));
            i += 1;
        }
        Body::Stream(chunks)
    }

    /// Returns true if the body holds no bytes.
    pub fn is_empty(&self) -> (r: bool)
        ensures
            r == (self@.len() == 0),
    {
        proof {
            lemma_concat_empty(self.frames());
        }
        match self {
            Body::Empty => true,
            Body::Full(chunk) => {
                assert(self.frames()[0] == chunk@);
                chunk.len() == 0
            },
            Body::Stream(chunks) => {
                let mut i: usize = 0;
                while i < chunks.len()
                    invariant
                        i <= chunks.len(),
                        self.frames() == frames_of(chunks@),
                        concat(self.frames()).len() == 0 <==> forall|k: int|
                            0 <= k < self.frames().len() ==> (#[trigger] self.frames()[k]).len()
                                == 0,
                        forall|j: int| 0 <= j < i ==> (#[trigger] chunks@[j])@.len() == 0,
                    decreases chunks.len() - i,
                {
                    if chunks[i].len() != 0 {
                        assert(self.frames()[i as int].len() != 0);
                        return false;
                    }
                    i += 1;
                }
                assert forall|j: int| 0 <= j < self.frames().len() implies (
                #[trigger] self.frames()[j]).len() == 0 by {
                    assert(chunks@[j]@.len() == 0);
                }
                true
            },
        }
    }

    /// Returns the byte length of the body.
    pub fn len(&self) -> (r: usize)
        requires
            self@.len() <= usize::MAX,
        ensures
            r == self@.len(),
    {
        match self {
            Body::Empty => 0,
            Body::Full(chunk) => {
                proof {
                    lemma_concat_single(chunk@);
                }
                chunk.len()
            },
            Body::Stream(chunks) => {
                let mut total: usize = 0;
                let mut i: usize = 0;
                while i < chunks.len()
                    invariant
                        i <= chunks.len(),
                        total == concat(frames_of(chunks@).subrange(0, i as int)).len(),
                        concat(frames_of(chunks@)).len() <= usize::MAX,
                    decreases chunks.len() - i,
                {
                    proof {
                        let next = frames_of(chunks@).subrange(0, i as int + 1);
                        assert(next.drop_last() =~= frames_of(chunks@).subrange(0, i as int));
                        assert(next.last() == chunks@[i as int]@);
                        lemma_concat_prefix_len(frames_of(chunks@), i as int + 1);
                    }
                    total = total + chunks[i].len();
                    i += 1;
                }
                assert(frames_of(chunks@).subrange(0, i as int) =~= frames_of(chunks@));
                total
            },
        }
    }

    /// Returns the bytes of the body in one block.
    pub fn as_bytes(&self) -> (r: Vec<u8>)
        ensures
            r@ == self@,
    {
        match self {
            Body::Empty => Vec::new(),
            Body::Full(chunk) => {
                proof {
                    lemma_concat_single(chunk@);
                }
                bytes_to_vec(chunk.as_slice())
            },
            Body::Stream(chunks) => {
                let mut out: Vec<u8> = Vec::new();
                let mut i: usize = 0;
                while i < chunks.len()
                    invariant
                        i <= chunks.len(),
                        out@ == concat(frames_of(chunks@).subrange(0, i as int)),
                    decreases chunks.len() - i,
                {
                    let ghost done = out@;
                    let chunk = &chunks[i];
                    let mut k: usize = 0;
                    while k < chunk.len()
                        invariant
                            k <= chunk.len(),
                            out@ == done + chunk@.subrange(0, k as int),
                        decreases chunk.len() - k,
                    {
                        out.push(chunk[k]);
                        assert(out@ =~= done + chunk@.subrange(0, k as int + 1));
                        k += 1;
                    }
                    proof {
                        let next = frames_of(chunks@).subrange(0, i as int + 1);
                        assert(next.drop_last() =~= frames_of(chunks@).subrange(0, i as int));
                        assert(next.last() == chunk@);
                        assert(chunk@.subrange(0, k as int) =~= chunk@);
                    }
                    i += 1;
                }
                assert(frames_of(chunks@).subrange(0, i as int) =~= frames_of(chunks@));
                out
            },
        }
    }

    /// Returns the frames of the body, in order.
    pub fn chunks(&self) -> (r: Vec<Vec<u8>>)
        ensures
            frames_of(r@) == self.frames(),
    {
        let mut out: Vec<Vec<u8>> = Vec::new();
        match self {
            Body::Empty => {
                assert(frames_of(out@) =~= self.frames());
            },
            Body::Full(chunk) => {
                out.push(bytes_to_vec(chunk.as_slice()));
                assert(frames_of(out@) =~= self.frames());
            },
            Body::Stream(chunks) => {
                let mut i: usize = 0;
                while i < chunks.len()
                    invariant
                        i <= chunks.len(),
                        frames_of(out@) == frames_of(chunks@).subrange(0, i as int),
                    decreases chunks.len() - i,
                {
                    let ghost before = frames_of(out@);
                    out.push(bytes_to_vec(chunks[i].as_slice()));
                    assert(frames_of(out@) =~= before.push(chunks@[i as int]@));
                    assert(before.push(chunks@[i as int]@) =~= frames_of(chunks@).subrange(
                        0,
                        i as int + 1,
                    ));
                    i += 1;
                }
                assert(frames_of(chunks@).subrange(0, i as int) =~= frames_of(chunks@));
            },
        }
        out
    }

    /// Returns a copy of the body, frame by frame.
    pub fn duplicate(&self) -> (r: Body)
        ensures
            r.frames() == self.frames(),
            r@ == self@,
            self is Empty <==> r is Empty,
            self is Full <==> r is Full,
            self is Stream <==> r is Stream,
    {
        match self {
            Body::Empty => Body::Empty,
            Body::Full(chunk) => Body::Full(bytes_to_vec(chunk.as_slice())),
            Body::Stream(_) => Body::Stream(self.chunks()),
        }
    }

    /// Returns true if the body holds exactly these bytes.
    pub fn matches_bytes(&self, other: &[u8]) -> (r: bool)
        ensures
            r == (self@ == other@),
    {
        let mine = self.as_bytes();
        bytes_eq(mine.as_slice(), other)
    }

    /// Returns true if both bodies hold the same bytes.
    pub fn same_as(&self, other: &Body) -> (r: bool)
        ensures
            r == (self@ == other@),
    {
        let theirs = other.as_bytes();
        self.matches_bytes(theirs.as_slice())
    }
}

impl Default for Body {
    fn default() -> (r: Body)
        ensures
            r == Body::Empty,
    {
        Body::Empty
    }
}

impl Clone for Body {
    fn clone(&self) -> (r: Body)
        ensures
            r.frames() == self.frames(),
            r@ == self@,
    {
        self.duplicate()
    }
}

impl PartialEq for Body {
    fn eq(&self, other: &Body) -> (r: bool) {
        self.same_as(other)
    }
}

impl vstd::std_specs::cmp::PartialEqSpecImpl for Body {
    open spec fn obeys_eq_spec() -> bool {
        true
    }

    open spec fn eq_spec(&self, other: &Body) -> bool {
        self@ == other@
    }
}

} // verus!
