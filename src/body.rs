//! Body completion: the decisions that the connection loop follows while it
//! reads the rest of a body whose length the header announced.

use vstd::prelude::*;

use crate::request::HTTPRequestHeader;

verus! {

/// How many failed reads body completion tolerates.
pub const READ_RETRIES: u8 = 5;

/// Where body completion stands.
#[derive(Clone, Copy, Debug, PartialEq, Eq, Structural)]
pub enum BodyStatus {
    /// The body is complete: no length was announced, or at least that many
    /// bytes are held.
    Complete,
    /// More bytes are needed and reads may still be tried.
    NeedMore,
    /// The retries ran out before the body was complete: the request is
    /// abandoned.
    Abandoned,
}

/// The state of body completion, as values.
pub struct AssemblyView {
    pub content_length: Option<nat>,
    pub body: Seq<u8>,
    pub retries_left: nat,
}

/// The status that a state of body completion is in.
pub open spec fn status_of(a: AssemblyView) -> BodyStatus {
    match a.content_length {
        None => BodyStatus::Complete,
        Some(n) => if a.body.len() >= n {
            BodyStatus::Complete
        } else if a.retries_left == 0 {
            BodyStatus::Abandoned
        } else {
            BodyStatus::NeedMore
        },
    }
}

/// The body of one request while it is being read.
pub struct BodyAssembler {
    content_length: Option<usize>,
    body: Vec<u8>,
    retries_left: u8,
}

impl View for BodyAssembler {
    type V = AssemblyView;

    closed spec fn view(&self) -> AssemblyView {
        AssemblyView {
            content_length: match self.content_length {
                Some(n) => Some(n as nat),
                None => None,
            },
            body: self.body@,
            retries_left: self.retries_left as nat,
        }
    }
}

impl BodyAssembler {
    /// Starts from the bytes of the first read that follow the header block.
    pub fn new(header: &HTTPRequestHeader, first_read: &[u8], body_start: usize) -> (r: Self)
        requires
            body_start <= first_read@.len(),
        ensures
            r@.content_length == header@.content_length,
            r@.body == first_read@.subrange(body_start as int, first_read@.len() as int),
            r@.retries_left == READ_RETRIES as nat,
    {
        let mut body: Vec<u8> = Vec::new();
        let mut i: usize = body_start;
        while i < first_read.len()
            invariant
                body_start <= i <= first_read@.len(),
                body@ == first_read@.subrange(body_start as int, i as int),
            decreases first_read@.len() - i,
        {
            body.push(first_read[i]);
            assert(first_read@.subrange(body_start as int, i + 1) =~= first_read@.subrange(
                body_start as int,
                i as int,
            ).push(first_read@[i as int]));
            i = i + 1;
        }
        BodyAssembler { content_length: header.content_length, body, retries_left: READ_RETRIES }
    }

    /// Where completion stands.
    pub fn status(&self) -> (r: BodyStatus)
        ensures
            r == status_of(self@),
    {
        match self.content_length {
            None => BodyStatus::Complete,
            Some(n) => if self.body.len() >= n {
                BodyStatus::Complete
            } else if self.retries_left == 0 {
                BodyStatus::Abandoned
            } else {
                BodyStatus::NeedMore
            },
        }
    }

    /// A read returned `data`. A short read is expected and only appends;
    /// an empty read means that the peer sent nothing more, and counts as a
    /// failed read.
    pub fn on_read(&mut self, data: &[u8])
        ensures
            final(self)@.content_length == old(self)@.content_length,
            final(self)@.body == old(self)@.body + data@,
            data@.len() > 0 ==> final(self)@.retries_left == old(self)@.retries_left,
            data@.len() == 0 ==> final(self)@.retries_left == if old(self)@.retries_left > 0 {
                old(self)@.retries_left - 1
            } else {
                0
            },
    {
        if data.len() == 0 {
            self.on_failure();
        } else {
            let mut i: usize = 0;
            let ghost start = self.body@;
            while i < data.len()
                invariant
                    i <= data@.len(),
                    self.body@ == start + data@.subrange(0, i as int),
                    self.content_length == old(self).content_length,
                    self.retries_left == old(self).retries_left,
                    start == old(self).body@,
                decreases data@.len() - i,
            {
                self.body.push(data[i]);
                assert(data@.subrange(0, i + 1) =~= data@.subrange(0, i as int).push(data@[i as int]));
                i = i + 1;
            }
            assert(data@.subrange(0, i as int) =~= data@);
        }
    }

    /// A read failed: one retry fewer.
    pub fn on_failure(&mut self)
        ensures
            final(self)@.content_length == old(self)@.content_length,
            final(self)@.body == old(self)@.body,
            final(self)@.retries_left == if old(self)@.retries_left > 0 {
                old(self)@.retries_left - 1
            } else {
                0
            },
    {
        if self.retries_left > 0 {
            self.retries_left = self.retries_left - 1;
        }
    }

    /// The body as assembled, never cut to the announced length.
    pub fn into_body(self) -> (r: Vec<u8>)
        ensures
            r@ == self@.body,
    {
        self.body
    }
}

} // verus!
