//! The messages of an object header, read in their order through the
//! continuations.
//!
//! A continuation message sends the reading to another range of the file.
//! When that range is read to its end, the reading goes on behind the
//! continuation message. The places to go back to are kept on a stack.

use vstd::prelude::*;
use vstd::slice::slice_subrange;
use crate::error::{Context, Fault, ParseError};
use crate::parse::header::{Message, MessageView};
use crate::parse::message::{header_message_frame, spec_header_message};
use crate::parse::header_message;

verus! {

/// Where the reading of messages stands: the range of the file that is
/// being read, from `pos` up to `end`, and the ranges to go back to, the
/// last of them first.
pub struct Stream {
    pub pos: usize,
    pub end: usize,
    pub resume: Seq<(usize, usize)>,
}

impl Stream {
    /// The reading of the file from `pos` to its end.
    pub open spec fn start(contents: Seq<u8>, pos: usize) -> Stream {
        Stream { pos, end: contents.len() as usize, resume: Seq::empty() }
    }

    /// Whether every range lies in a file of `len` bytes.
    pub open spec fn fits(self, len: int) -> bool {
        &&& self.pos <= self.end <= len
        &&& forall|i: int|
            0 <= i < self.resume.len() ==> (#[trigger] self.resume[i]).0 <= self.resume[i].1 <= len
    }

    /// The reading where its range is at its end and there is a range to go
    /// back to: it goes back, as often as that holds.
    pub open spec fn settle(self) -> Stream
        decreases self.resume.len(),
    {
        if self.pos >= self.end && self.resume.len() > 0 {
            (Stream {
                pos: self.resume.last().0,
                end: self.resume.last().1,
                resume: self.resume.drop_last(),
            }).settle()
        } else {
            self
        }
    }

    /// The next message, and the reading after it. A continuation message
    /// whose range lies in the file moves the reading into that range and
    /// keeps the place behind the message to go back to; one whose range
    /// does not is a fault.
    pub open spec fn step(self, contents: Seq<u8>) -> Result<(Stream, MessageView), Fault> {
        let at = self.settle();
        match spec_header_message(contents.subrange(at.pos as int, at.end as int)) {
            Err(fault) => Err(fault),
            Ok((n, message)) => {
                let after = Stream { pos: (at.pos + n) as usize, ..at };
                match message {
                    MessageView::ObjectHeaderContinuation(c) => if c.offset + c.length
                        > contents.len() {
                        Err(
                            Fault::Truncated {
                                context: Context::ObjectHeaderContinuation,
                                need: c.length,
                            },
                        )
                    } else {
                        Ok(
                            (
                                Stream {
                                    pos: c.offset as usize,
                                    end: (c.offset + c.length) as usize,
                                    resume: at.resume.push((after.pos, after.end)),
                                },
                                message,
                            ),
                        )
                    },
                    _ => Ok((after, message)),
                }
            },
        }
    }

    /// The messages of `so_far` and the next `count` messages after them.
    pub open spec fn messages(self, contents: Seq<u8>, count: nat, so_far: Seq<MessageView>) -> Result<
        Seq<MessageView>,
        Fault,
    >
        decreases count,
    {
        if count == 0 {
            Ok(so_far)
        } else {
            match self.step(contents) {
                Err(fault) => Err(fault),
                Ok((next, message)) => next.messages(
                    contents,
                    (count - 1) as nat,
                    so_far.push(message),
                ),
            }
        }
    }

    /// Going back keeps every range in the file.
    pub proof fn lemma_settle_fits(self, len: int)
        requires
            self.fits(len),
        ensures
            self.settle().fits(len),
            self.settle().resume.len() <= self.resume.len(),
        decreases self.resume.len(),
    {
        if self.pos >= self.end && self.resume.len() > 0 {
            let back = Stream {
                pos: self.resume.last().0,
                end: self.resume.last().1,
                resume: self.resume.drop_last(),
            };
            assert(self.resume[self.resume.len() - 1] == self.resume.last());
            assert forall|i: int| 0 <= i < back.resume.len() implies (#[trigger] back.resume[i]).0
                <= back.resume[i].1 <= len by {
                assert(back.resume[i] == self.resume[i]);
            }
            back.lemma_settle_fits(len);
        }
    }
}

impl Stream {
    /// The reading with the ranges `below` to go back to after its own.
    pub open spec fn over(self, below: Seq<(usize, usize)>) -> Stream {
        Stream { resume: below + self.resume, ..self }
    }

    /// Whether nothing is left to read: the range in hand is at its end,
    /// and so is every range to go back to.
    pub open spec fn done(self) -> bool {
        self.settle().pos >= self.settle().end
    }

    /// The reading after the next `count` messages, if they can be read.
    pub open spec fn after(self, contents: Seq<u8>, count: nat) -> Option<Stream>
        decreases count,
    {
        if count == 0 {
            Some(self)
        } else {
            match self.step(contents) {
                Err(_) => None,
                Ok((next, _)) => next.after(contents, (count - 1) as nat),
            }
        }
    }

    /// Where the range in hand is at its end, going back leaves no range to
    /// go back to.
    pub proof fn lemma_done(self)
        ensures
            self.done() ==> self.settle().resume.len() == 0,
        decreases self.resume.len(),
    {
        if self.pos >= self.end && self.resume.len() > 0 {
            (Stream {
                pos: self.resume.last().0,
                end: self.resume.last().1,
                resume: self.resume.drop_last(),
            }).lemma_done();
        }
    }

    /// Going back does not reach the ranges below while there is something
    /// left to read above them; when nothing is left, it goes on into them.
    pub proof fn lemma_settle_over(self, below: Seq<(usize, usize)>)
        ensures
            !self.done() ==> self.over(below).settle() == self.settle().over(below),
            self.done() ==> self.over(below).settle() == (Stream {
                pos: self.settle().pos,
                end: self.settle().end,
                resume: below,
            }).settle(),
        decreases self.resume.len(),
    {
        if self.pos >= self.end && self.resume.len() > 0 {
            let back = Stream {
                pos: self.resume.last().0,
                end: self.resume.last().1,
                resume: self.resume.drop_last(),
            };
            back.lemma_settle_over(below);
            assert((below + self.resume).last() == self.resume.last());
            assert((below + self.resume).drop_last() =~= below + self.resume.drop_last());
            assert(self.over(below).settle() == back.over(below).settle());
        } else if self.pos >= self.end {
            assert(below + self.resume =~= below);
        }
    }

    /// A message that can be read leaves every range in the file.
    pub proof fn lemma_step_fits(self, contents: Seq<u8>)
        requires
            contents.len() <= usize::MAX,
            self.fits(contents.len() as int),
            self.step(contents) is Ok,
        ensures
            self.step(contents)->Ok_0.0.fits(contents.len() as int),
            !self.done(),
    {
        self.lemma_settle_fits(contents.len() as int);
        let at = self.settle();
        let next = self.step(contents)->Ok_0.0;
        let window = contents.subrange(at.pos as int, at.end as int);
        assert(window.len() == at.end - at.pos);
        assert(spec_header_message(window) is Ok);
        let frame = header_message_frame(window);
        assert(frame.fault is None);
        let n = spec_header_message(window)->Ok_0.0;
        assert(crate::parse::ZERO3@.len() == 3);
        assert(frame.pos == n);
        assert(0 <= n <= window.len());
        assert(next.pos <= next.end <= contents.len());
        assert forall|i: int| 0 <= i < next.resume.len() implies (#[trigger] next.resume[i]).0
            <= next.resume[i].1 <= contents.len() by {
            if i < at.resume.len() {
                assert(next.resume[i] == at.resume[i]);
            }
        }
    }

    /// The next message is read the same with ranges below to go back to.
    pub proof fn lemma_step_over(self, contents: Seq<u8>, below: Seq<(usize, usize)>)
        requires
            contents.len() <= usize::MAX,
            self.fits(contents.len() as int),
            self.step(contents) is Ok,
        ensures
            self.over(below).step(contents) == Ok::<(Stream, MessageView), Fault>(
                (self.step(contents)->Ok_0.0.over(below), self.step(contents)->Ok_0.1),
            ),
    {
        self.lemma_step_fits(contents);
        self.lemma_settle_over(below);
        let at = self.settle();
        let next = self.step(contents)->Ok_0.0;
        let other = self.over(below).step(contents)->Ok_0.0;
        assert(other.resume =~= (below + next.resume));
    }

    /// The next `count` messages are read the same with ranges below to go
    /// back to, and the reading after them is the same above those ranges.
    pub proof fn lemma_messages_over(
        self,
        contents: Seq<u8>,
        below: Seq<(usize, usize)>,
        count: nat,
        so_far: Seq<MessageView>,
    )
        requires
            contents.len() <= usize::MAX,
            self.fits(contents.len() as int),
            self.after(contents, count) is Some,
        ensures
            self.over(below).messages(contents, count, so_far) == self.messages(
                contents,
                count,
                so_far,
            ),
            self.over(below).after(contents, count) == Some(
                self.after(contents, count)->0.over(below),
            ),
            self.after(contents, count)->0.fits(contents.len() as int),
        decreases count,
    {
        if count > 0 {
            self.lemma_step_fits(contents);
            self.lemma_step_over(contents, below);
            let (next, message) = self.step(contents)->Ok_0;
            next.lemma_messages_over(contents, below, (count - 1) as nat, so_far.push(message));
        }
    }

    /// A continuation is read through: where the next message is a
    /// continuation message and its range holds `count` messages and
    /// nothing more, those `count` messages are the next ones, and after
    /// them the reading goes on behind the continuation message. The
    /// ranges that the messages of the range lead to in their turn are
    /// read through in the same way.
    pub proof fn lemma_continuation_resumes(
        self,
        contents: Seq<u8>,
        count: nat,
        so_far: Seq<MessageView>,
    )
        requires
            contents.len() <= usize::MAX,
            self.fits(contents.len() as int),
            self.step(contents) is Ok,
            self.step(contents)->Ok_0.1 is ObjectHeaderContinuation,
            ({
                let c = self.step(contents)->Ok_0.1->ObjectHeaderContinuation_0;
                let range = Stream {
                    pos: c.offset as usize,
                    end: (c.offset + c.length) as usize,
                    resume: Seq::empty(),
                };
                range.after(contents, count) matches Some(last) && last.done()
            }),
        ensures
            ({
                let (inside, message) = self.step(contents)->Ok_0;
                let c = message->ObjectHeaderContinuation_0;
                let range = Stream {
                    pos: c.offset as usize,
                    end: (c.offset + c.length) as usize,
                    resume: Seq::empty(),
                };
                let at = self.settle();
                let n = spec_header_message(contents.subrange(at.pos as int, at.end as int))->Ok_0.0;
                let behind = Stream { pos: (at.pos + n) as usize, ..at };
                &&& inside.messages(contents, count, so_far) == range.messages(
                    contents,
                    count,
                    so_far,
                )
                &&& inside.after(contents, count) matches Some(back) && back.settle()
                    == behind.settle()
            }),
    {
        self.lemma_step_fits(contents);
        let (inside, message) = self.step(contents)->Ok_0;
        let c = message->ObjectHeaderContinuation_0;
        let range = Stream {
            pos: c.offset as usize,
            end: (c.offset + c.length) as usize,
            resume: Seq::empty(),
        };
        let at = self.settle();
        let n = spec_header_message(contents.subrange(at.pos as int, at.end as int))->Ok_0.0;
        let behind = Stream { pos: (at.pos + n) as usize, ..at };
        let below = at.resume.push((behind.pos, behind.end));
        assert(inside == range.over(below)) by {
            assert(below + range.resume =~= below);
        }
        range.lemma_messages_over(contents, below, count, so_far);
        let last = range.after(contents, count)->0;
        last.lemma_settle_over(below);
        last.lemma_done();
        let back = last.over(below);
        let landed = Stream { pos: last.settle().pos, end: last.settle().end, resume: below };
        assert(back.settle() == landed.settle());
        assert(below.last() == (behind.pos, behind.end));
        assert(below.drop_last() =~= at.resume);
        assert(landed.settle() == behind.settle());
    }
}

/// The views of `messages`, one for one.
pub open spec fn views(messages: Seq<Message>) -> Seq<MessageView> {
    Seq::new(messages.len(), |i: int| messages[i]@)
}

/// A reading of the messages of an object header.
pub struct MessageStream<'a> {
    contents: &'a [u8],
    pos: usize,
    end: usize,
    resume: Vec<(usize, usize)>,
}

impl<'a> View for MessageStream<'a> {
    type V = Stream;

    closed spec fn view(&self) -> Stream {
        Stream { pos: self.pos, end: self.end, resume: self.resume@ }
    }
}

/// `pos`, or the length of the file if `pos` lies behind its end.
pub open spec fn within_file(contents: Seq<u8>, pos: usize) -> usize {
    if pos <= contents.len() {
        pos
    } else {
        contents.len() as usize
    }
}

impl<'a> MessageStream<'a> {
    /// Whether every range of the reading lies in the file.
    pub closed spec fn wf(&self) -> bool {
        self@.fits(self.contents@.len() as int)
    }

    /// The file that is read.
    pub closed spec fn contents(&self) -> Seq<u8> {
        self.contents@
    }

    /// Starts to read messages at `pos`; a `pos` behind the end of the file
    /// stands for its end.
    pub fn new(contents: &'a [u8], pos: usize) -> (r: MessageStream<'a>)
        ensures
            r.wf(),
            r.contents() == contents@,
            r@ == Stream::start(contents@, within_file(contents@, pos)),
    {
        let len = contents.len();
        let pos = if pos <= len {
            pos
        } else {
            len
        };
        MessageStream { contents, pos, end: len, resume: Vec::new() }
    }

    /// Goes back to the ranges left behind while the range in hand is at
    /// its end.
    fn settle(&mut self)
        requires
            old(self).wf(),
        ensures
            final(self).wf(),
            final(self)@ == old(self)@.settle(),
            final(self).contents() == old(self).contents(),
    {
        while self.pos >= self.end && self.resume.len() > 0
            invariant
                self@.fits(self.contents@.len() as int),
                self@.settle() == old(self)@.settle(),
                self.contents == old(self).contents,
            decreases self.resume.len(),
        {
            let ghost before = self@;
            let (pos, end) = self.resume.pop().unwrap();
            self.pos = pos;
            self.end = end;
            proof {
                before.lemma_settle_fits(self.contents@.len() as int);
                assert(self@ == (Stream {
                    pos: before.resume.last().0,
                    end: before.resume.last().1,
                    resume: before.resume.drop_last(),
                }));
                assert(before.resume[before.resume.len() - 1] == before.resume.last());
                assert forall|i: int| 0 <= i < self@.resume.len() implies (
                #[trigger] self@.resume[i]).0 <= self@.resume[i].1 <= self.contents@.len() by {
                    assert(self@.resume[i] == before.resume[i]);
                }
            }
        }
    }

    /// Reads the next message.
    pub fn next(&mut self) -> (r: Result<Message, ParseError>)
        requires
            old(self).wf(),
        ensures
            final(self).wf(),
            final(self).contents() == old(self).contents(),
            match r {
                Ok(message) => old(self)@.step(old(self).contents()) == Ok::<
                    (Stream, MessageView),
                    Fault,
                >((final(self)@, message@)),
                Err(e) => old(self)@.step(old(self).contents()) == Err::<
                    (Stream, MessageView),
                    Fault,
                >(e@),
            },
    {
        self.settle();
        let window = slice_subrange(self.contents, self.pos, self.end);
        let (rest, message) = header_message(window)?;
        let after = self.end - rest.len();
        match message {
            Message::ObjectHeaderContinuation(c) => {
                let len = self.contents.len();
                if c.offset > len as u64 || c.length > len as u64 - c.offset {
                    return Err(
                        ParseError::Truncated {
                            context: Context::ObjectHeaderContinuation,
                            need: c.length,
                        },
                    );
                }
                let ghost before = self@;
                self.resume.push((after, self.end));
                self.pos = c.offset as usize;
                self.end = (c.offset + c.length) as usize;
                proof {
                    assert forall|i: int| 0 <= i < self@.resume.len() implies (
                    #[trigger] self@.resume[i]).0 <= self@.resume[i].1 <= self.contents@.len() by {
                        if i < before.resume.len() {
                            assert(self@.resume[i] == before.resume[i]);
                        }
                    }
                }
            },
            _ => {
                self.pos = after;
            },
        }
        Ok(message)
    }
}

/// Reads `count` messages of an object header from `contents`, the first
/// at `pos`, in their order and through the continuations. The
/// continuation messages are among the messages returned.
pub fn read_messages(contents: &[u8], pos: usize, count: u16) -> (r: Result<
    Vec<Message>,
    ParseError,
>)
    ensures
        match r {
            Ok(messages) => Stream::start(contents@, within_file(contents@, pos)).messages(
                contents@,
                count as nat,
                Seq::empty(),
            ) == Ok::<Seq<MessageView>, Fault>(views(messages@)) && messages@.len() == count,
            Err(e) => Stream::start(contents@, within_file(contents@, pos)).messages(
                contents@,
                count as nat,
                Seq::empty(),
            ) == Err::<Seq<MessageView>, Fault>(e@),
        },
{
    let mut stream = MessageStream::new(contents, pos);
    let mut messages: Vec<Message> = Vec::new();
    let mut i: u16 = 0;
    assert(views(messages@) =~= Seq::<MessageView>::empty());
    while i < count
        invariant
            i <= count,
            messages@.len() == i,
            stream.wf(),
            stream.contents() == contents@,
            stream@.messages(contents@, (count - i) as nat, views(messages@)) == Stream::start(
                contents@,
                within_file(contents@, pos),
            ).messages(contents@, count as nat, Seq::empty()),
        decreases count - i,
    {
        let ghost before = views(messages@);
        let message = stream.next()?;
        messages.push(message);
        i += 1;
        assert(views(messages@) =~= before.push(message@));
    }
    Ok(messages)
}

} // verus!
