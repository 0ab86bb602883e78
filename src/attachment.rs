//! The attachment upload pipeline.
//!
//! An attachment stream carries one header line, then raw file bytes until
//! the peer closes. `UploadFramer` splits the bytes as they arrive; the
//! remaining functions decide where the body goes and when an upload is
//! complete.

use vstd::prelude::*;

verus! {

broadcast use vstd::string::group_string_axioms;

pub open spec fn newline() -> u8 {
    10
}

/// Whether `s` holds no newline byte.
pub open spec fn no_newline(s: Seq<u8>) -> bool {
    forall|i: int| 0 <= i < s.len() ==> s[i] != newline()
}

/// What the framer hands back for one chunk.
#[derive(Debug)]
pub enum Framed {
    /// The header line is not complete yet.
    NeedMore,
    /// The header line just completed (without its newline), and the body
    /// bytes that followed it in the same chunk.
    Header(Vec<u8>, Vec<u8>),
    /// Body bytes.
    Body(Vec<u8>),
}

/// Splits an attachment stream into its header line and body.
pub struct UploadFramer {
    pending: Vec<u8>,
    header: Option<Vec<u8>>,
    fed: Ghost<Seq<u8>>,
    emitted: Ghost<Seq<u8>>,
}

impl UploadFramer {
    /// Every byte fed so far.
    pub closed spec fn fed(&self) -> Seq<u8> {
        self.fed@
    }

    /// Every body byte handed back so far.
    pub closed spec fn emitted(&self) -> Seq<u8> {
        self.emitted@
    }

    /// The header line, once its newline has arrived.
    pub closed spec fn header_line(&self) -> Option<Seq<u8>> {
        match self.header {
            Some(h) => Some(h@),
            None => None,
        }
    }

    /// Before the first newline all bytes are header; after it, the bytes
    /// fed are the header line, the newline, and the body handed back.
    pub closed spec fn wf(&self) -> bool {
        match self.header {
            None => self.fed@ == self.pending@ && no_newline(self.pending@) && self.emitted@
                == Seq::<u8>::empty(),
            Some(h) => no_newline(h@) && self.fed@ == h@ + seq![newline()] + self.emitted@,
        }
    }

    pub fn new() -> (r: Self)
        ensures
            r.wf(),
            r.fed() == Seq::<u8>::empty(),
            r.emitted() == Seq::<u8>::empty(),
            r.header_line() is None,
    {
        UploadFramer {
            pending: Vec::new(),
            header: None,
            fed: Ghost(Seq::empty()),
            emitted: Ghost(Seq::empty()),
        }
    }

    /// Takes the next chunk read from the stream.
    pub fn feed(&mut self, chunk: &[u8]) -> (r: Framed)
        requires
            old(self).wf(),
        ensures
            final(self).wf(),
            final(self).fed() == old(self).fed() + chunk@,
            old(self).header_line() is Some ==> final(self).header_line() == old(self).header_line(),
            match r {
                Framed::NeedMore => final(self).header_line() is None && final(self).emitted()
                    == old(self).emitted(),
                Framed::Header(h, rest) => old(self).header_line() is None
                    && final(self).header_line() == Some(h@) && final(self).emitted() == rest@,
                Framed::Body(b) => old(self).header_line() is Some && final(self).emitted()
                    == old(self).emitted() + b@ && b@ == chunk@,
            },
            old(self).header_line() is Some ==> r is Body,
    {
        if self.header.is_some() {
            let body = copy_range(chunk, 0, chunk.len());
            proof {
                assert(body@ == chunk@);
            }
            self.fed = Ghost(self.fed@ + chunk@);
            self.emitted = Ghost(self.emitted@ + chunk@);
            proof {
                let h = self.header.unwrap()@;
                assert(self.fed@ =~= h + seq![newline()] + self.emitted@);
            }
            return Framed::Body(body);
        }
        let mut i: usize = 0;
        let mut found = false;
        while i < chunk.len() && !found
            invariant
                i <= chunk@.len(),
                forall|j: int| 0 <= j < i ==> chunk@[j] != newline(),
                found ==> i < chunk@.len() && chunk@[i as int] == newline(),
            decreases chunk@.len() - i + (if found { 0int } else { 1int }),
        {
            if chunk[i] == 10 {
                found = true;
            } else {
                i = i + 1;
            }
        }
        let ghost before = self.pending@;
        let mut head = copy_range(chunk, 0, i);
        let mut line = Vec::new();
        std::mem::swap(&mut line, &mut self.pending);
        line.append(&mut head);
        if i == chunk.len() {
            self.pending = line;
            self.fed = Ghost(self.fed@ + chunk@);
            proof {
                assert(chunk@.subrange(0, i as int) =~= chunk@);
                assert(self.pending@ =~= before + chunk@);
                assert(no_newline(self.pending@));
            }
            Framed::NeedMore
        } else {
            let rest = copy_range(chunk, i + 1, chunk.len());
            let kept = copy_range(line.as_slice(), 0, line.len());
            assert(kept@ =~= line@);
            self.header = Some(kept);
            self.fed = Ghost(self.fed@ + chunk@);
            self.emitted = Ghost(rest@);
            proof {
                assert(chunk@ =~= chunk@.subrange(0, i as int) + seq![newline()] + rest@);
                assert(self.fed@ =~= line@ + seq![newline()] + rest@);
                assert(no_newline(line@));
            }
            Framed::Header(line, rest)
        }
    }
}

fn copy_range(b: &[u8], from: usize, to: usize) -> (r: Vec<u8>)
    requires
        from <= to <= b@.len(),
    ensures
        r@ == b@.subrange(from as int, to as int),
{
    let mut out: Vec<u8> = Vec::new();
    let mut i: usize = from;
    while i < to
        invariant
            from <= i <= to,
            to <= b@.len(),
            out@ == b@.subrange(from as int, i as int),
        decreases to - i,
    {
        out.push(b[i]);
        i = i + 1;
        assert(out@ == b@.subrange(from as int, i as int));
    }
    out
}

/// The header line of an attachment stream, as plain values.
#[derive(Debug, Clone)]
pub struct AttachHeader {
    pub upload_id: String,
    pub filename: String,
    pub mime_type: String,
    pub size_bytes: u64,
}

/// A transfer registered out of band before its bytes arrive.
#[derive(Debug, Clone)]
pub struct PendingUpload {
    pub upload_id: String,
    pub filename: String,
    pub mime_type: String,
    pub size_bytes: u64,
    /// Set once the whole byte stream has been stored.
    pub completed: bool,
}

/// Why an attachment stream was given up.
#[derive(Debug, Clone, Copy, PartialEq, Eq, Structural)]
pub enum UploadAbort {
    /// No transfer is registered under the header's upload id.
    UnknownUpload,
}

/// The blob-store key of an upload: `attach:` and the upload id.
pub open spec fn blob_key_of(upload_id: Seq<char>) -> Seq<char> {
    "attach:"@ + upload_id
}

/// The blob-store key of an upload; the same id always gives the same key.
pub fn blob_key(upload_id: &str) -> (r: String)
    ensures
        r@ == blob_key_of(upload_id@),
{
    let mut key = "attach:".to_string();
    key.append(upload_id);
    key
}

/// Decides whether the body that follows `header` is stored, given the
/// transfer registered under its upload id (if any), and under which key.
pub fn begin_upload(header: &AttachHeader, pending: Option<&PendingUpload>) -> (r: Result<
    String,
    UploadAbort,
>)
    ensures
        match pending {
            Some(p) if p.upload_id@ == header.upload_id@ => r matches Ok(k) && k@ == blob_key_of(
                header.upload_id@,
            ),
            _ => r == Err::<String, UploadAbort>(UploadAbort::UnknownUpload),
        },
{
    match pending {
        Some(p) => {
            if p.upload_id == header.upload_id {
                Ok(blob_key(header.upload_id.as_str()))
            } else {
                Err(UploadAbort::UnknownUpload)
            }
        },
        None => Err(UploadAbort::UnknownUpload),
    }
}

impl PendingUpload {
    /// Marks the transfer completed; true only for the call that changed it.
    pub fn complete(&mut self) -> (r: bool)
        ensures
            r == !old(self).completed,
            final(self).completed,
            final(self).upload_id == old(self).upload_id,
            final(self).filename == old(self).filename,
            final(self).mime_type == old(self).mime_type,
            final(self).size_bytes == old(self).size_bytes,
    {
        let flipped = !self.completed;
        self.completed = true;
        flipped
    }
}

/// However the stream was split into chunks, once a header line, its
/// newline and N body bytes have been fed, the framer holds that header
/// line and has handed back exactly those N bytes for the blob.
pub proof fn lemma_upload_body(f: UploadFramer, header: Seq<u8>, body: Seq<u8>)
    requires
        f.wf(),
        no_newline(header),
        f.fed() == header + seq![newline()] + body,
    ensures
        f.header_line() == Some(header),
        f.emitted() == body,
{
    let fed = f.fed();
    assert(fed[header.len() as int] == newline());
    match f.header {
        None => {
            assert(fed == f.pending@);
        },
        Some(h) => {
            let e = f.emitted();
            assert(fed == h@ + seq![newline()] + e);
            if h@.len() < header.len() {
                assert(fed[h@.len() as int] == newline());
                assert(fed[h@.len() as int] == header[h@.len() as int]);
            } else if h@.len() > header.len() {
                assert(fed[header.len() as int] == h@[header.len() as int]);
            }
            assert(h@ =~= fed.subrange(0, header.len() as int));
            assert(header =~= fed.subrange(0, header.len() as int));
            assert(e =~= fed.subrange(header.len() as int + 1, fed.len() as int));
            assert(body =~= fed.subrange(header.len() as int + 1, fed.len() as int));
        },
    }
}

/// Where an upload stream stands.
#[derive(Debug, Clone, Copy, PartialEq, Eq, Structural)]
pub enum UploadPhase {
    /// Reading the header line.
    Header,
    /// The header line is out for parsing and for looking up its transfer.
    Inspecting,
    /// The blob sink is being opened.
    Opening,
    /// Waiting for body bytes.
    Streaming,
    /// Body bytes are being written to the sink.
    Writing,
    /// The sink is being finalized.
    Closing,
    /// The whole body is stored and the transfer is marked completed.
    Completed,
    /// The stream was given up; nothing more is written or marked.
    Aborted,
}

/// What happened on an upload stream, as reported by the caller.
#[derive(Debug)]
pub enum UploadEvent {
    /// Bytes were read from the stream.
    Data(Vec<u8>),
    /// The peer closed its write side.
    End,
    /// Reading the stream failed.
    ReadFailed,
    /// The header line parsed (`None` when it did not), and the transfer
    /// registered under its upload id (`None` when there is none or the
    /// lookup failed).
    Inspected(Option<AttachHeader>, Option<PendingUpload>),
    /// The blob sink is open.
    Opened,
    /// Opening the blob sink failed.
    OpenFailed,
    /// The last write to the sink succeeded.
    Written,
    /// Writing to the sink failed.
    WriteFailed,
    /// The sink was finalized.
    Closed,
    /// Finalizing the sink failed.
    CloseFailed,
}

/// What the caller does next on an upload stream.
#[derive(Debug)]
pub enum UploadAction {
    /// Read more bytes.
    ReadMore,
    /// Parse this header line and look up its transfer.
    Inspect(Vec<u8>),
    /// Open the blob sink under this key.
    Open(String),
    /// Write these bytes to the sink.
    Write(Vec<u8>),
    /// Finalize the sink.
    Close,
    /// Mark the transfer completed.
    MarkComplete,
    /// Give the stream up.
    Abort,
    /// The upload is finished; nothing more to do.
    Stop,
}

/// The decisions of one attachment stream, from its first byte to its
/// completion or abandonment.
pub struct UploadPipeline {
    framer: UploadFramer,
    phase: UploadPhase,
    leftover: Vec<u8>,
    written: Ghost<Seq<u8>>,
}

impl UploadPipeline {
    pub closed spec fn phase(&self) -> UploadPhase {
        self.phase
    }

    /// Every byte read from the stream so far.
    pub closed spec fn fed(&self) -> Seq<u8> {
        self.framer.fed()
    }

    /// The header line, once read.
    pub closed spec fn header_line(&self) -> Option<Seq<u8>> {
        self.framer.header_line()
    }

    /// The body bytes read so far.
    pub closed spec fn body(&self) -> Seq<u8> {
        self.framer.emitted()
    }

    /// Every byte handed out in a `Write` action so far.
    pub closed spec fn written(&self) -> Seq<u8> {
        self.written@
    }

    /// Until the sink is open nothing is written; from then on every body
    /// byte read has been handed to a write.
    pub closed spec fn wf(&self) -> bool {
        &&& self.framer.wf()
        &&& match self.phase {
            UploadPhase::Header => self.framer.header_line() is None && self.written@.len() == 0,
            UploadPhase::Inspecting | UploadPhase::Opening => self.framer.header_line() is Some
                && self.written@.len() == 0 && self.leftover@ == self.framer.emitted(),
            UploadPhase::Aborted => true,
            _ => self.framer.header_line() is Some && self.written@ == self.framer.emitted(),
        }
    }

    pub fn new() -> (r: Self)
        ensures
            r.wf(),
            r.phase() == UploadPhase::Header,
            r.fed() == Seq::<u8>::empty(),
            r.written() == Seq::<u8>::empty(),
    {
        UploadPipeline {
            framer: UploadFramer::new(),
            phase: UploadPhase::Header,
            leftover: Vec::new(),
            written: Ghost(Seq::empty()),
        }
    }

    /// The action for `event`.
    ///
    /// The header line is read first and handed out for inspection; an
    /// unparsable header, an unknown upload id, or any read, open, write or
    /// close failure gives the stream up, as does an event out of order.
    /// Body bytes are written in the order read, those that came with the
    /// header first. The peer's close finalizes the sink, and only a
    /// successful finalization marks the transfer completed, once.
    pub fn step(&mut self, event: UploadEvent) -> (r: UploadAction)
        requires
            old(self).wf(),
        ensures
            final(self).wf(),
            old(self).phase() == UploadPhase::Aborted ==> r is Abort && final(self).phase()
                == UploadPhase::Aborted,
            old(self).phase() == UploadPhase::Completed ==> r is Stop && final(self).phase()
                == UploadPhase::Completed,
            r is Abort ==> final(self).phase() == UploadPhase::Aborted,
            (event is ReadFailed || event is WriteFailed || event is CloseFailed
                || event is OpenFailed) && old(self).phase() != UploadPhase::Completed ==> r is Abort,
            event is Inspected && old(self).phase() == UploadPhase::Inspecting ==> match event {
                UploadEvent::Inspected(Some(h), Some(p)) => if p.upload_id@ == h.upload_id@ {
                    r matches UploadAction::Open(k) && k@ == blob_key_of(h.upload_id@)
                        && final(self).phase() == UploadPhase::Opening
                } else {
                    r is Abort
                },
                _ => r is Abort,
            },
            r is Open ==> old(self).phase() == UploadPhase::Inspecting,
            r matches UploadAction::Write(b) ==> final(self).phase() == UploadPhase::Writing
                && final(self).written() == old(self).written() + b@,
            !(r is Write) ==> final(self).written() == old(self).written(),
            r is MarkComplete ==> old(self).phase() == UploadPhase::Closing && event is Closed
                && final(self).phase() == UploadPhase::Completed,
            final(self).phase() == UploadPhase::Completed ==> final(self).written()
                == final(self).body() && final(self).header_line() is Some,
            r is Close ==> old(self).phase() == UploadPhase::Streaming && event is End
                && final(self).phase() == UploadPhase::Closing,
            final(self).fed() == old(self).fed() + match event {
                UploadEvent::Data(b) => if old(self).phase() == UploadPhase::Header
                    || old(self).phase() == UploadPhase::Streaming {
                    b@
                } else {
                    Seq::<u8>::empty()
                },
                _ => Seq::<u8>::empty(),
            },
            old(self).header_line() is Some ==> final(self).header_line() == old(self).header_line(),
            old(self).phase() == UploadPhase::Header && event is Data ==> (r is ReadMore
                && final(self).phase() == UploadPhase::Header) || (r matches UploadAction::Inspect(l)
                && final(self).header_line() == Some(l@) && final(self).phase()
                == UploadPhase::Inspecting),
            old(self).phase() == UploadPhase::Opening && event is Opened ==> if old(self).body().len()
                == 0 {
                r is ReadMore && final(self).phase() == UploadPhase::Streaming
            } else {
                r matches UploadAction::Write(b) && b@ == old(self).body() && final(self).phase()
                    == UploadPhase::Writing
            },
            old(self).phase() == UploadPhase::Writing && event is Written ==> r is ReadMore
                && final(self).phase() == UploadPhase::Streaming,
            old(self).phase() == UploadPhase::Streaming ==> match event {
                UploadEvent::Data(b) => r matches UploadAction::Write(x) && x@ == b@
                    && final(self).phase() == UploadPhase::Writing,
                _ => true,
            },
            old(self).phase() == UploadPhase::Streaming && event is End ==> r is Close
                && final(self).phase() == UploadPhase::Closing,
            old(self).phase() == UploadPhase::Closing && event is Closed ==> r is MarkComplete
                && final(self).phase() == UploadPhase::Completed,
    {
        match self.phase {
            UploadPhase::Aborted => {
                return UploadAction::Abort;
            },
            UploadPhase::Completed => {
                return UploadAction::Stop;
            },
            _ => {},
        }
        match event {
            UploadEvent::Data(bytes) => {
                if self.phase == UploadPhase::Header {
                    match self.framer.feed(bytes.as_slice()) {
                        Framed::NeedMore => UploadAction::ReadMore,
                        Framed::Header(line, rest) => {
                            self.leftover = rest;
                            self.phase = UploadPhase::Inspecting;
                            UploadAction::Inspect(line)
                        },
                        Framed::Body(_) => {
                            self.phase = UploadPhase::Aborted;
                            UploadAction::Abort
                        },
                    }
                } else if self.phase == UploadPhase::Streaming {
                    match self.framer.feed(bytes.as_slice()) {
                        Framed::Body(b) => {
                            self.written = Ghost(self.written@ + b@);
                            self.phase = UploadPhase::Writing;
                            UploadAction::Write(b)
                        },
                        _ => {
                            self.phase = UploadPhase::Aborted;
                            UploadAction::Abort
                        },
                    }
                } else {
                    self.phase = UploadPhase::Aborted;
                    UploadAction::Abort
                }
            },
            UploadEvent::Inspected(header, pending) => {
                if self.phase != UploadPhase::Inspecting {
                    self.phase = UploadPhase::Aborted;
                    return UploadAction::Abort;
                }
                match header {
                    Some(h) => match begin_upload(&h, pending.as_ref()) {
                        Ok(key) => {
                            self.phase = UploadPhase::Opening;
                            UploadAction::Open(key)
                        },
                        Err(_) => {
                            self.phase = UploadPhase::Aborted;
                            UploadAction::Abort
                        },
                    },
                    None => {
                        self.phase = UploadPhase::Aborted;
                        UploadAction::Abort
                    },
                }
            },
            UploadEvent::Opened => {
                if self.phase != UploadPhase::Opening {
                    self.phase = UploadPhase::Aborted;
                    return UploadAction::Abort;
                }
                if self.leftover.len() == 0 {
                    self.phase = UploadPhase::Streaming;
                    proof {
                        assert(self.written@ =~= self.framer.emitted());
                    }
                    UploadAction::ReadMore
                } else {
                    let mut body = Vec::new();
                    std::mem::swap(&mut body, &mut self.leftover);
                    self.written = Ghost(self.written@ + body@);
                    proof {
                        assert(self.written@ =~= self.framer.emitted());
                    }
                    self.phase = UploadPhase::Writing;
                    UploadAction::Write(body)
                }
            },
            UploadEvent::Written => {
                if self.phase != UploadPhase::Writing {
                    self.phase = UploadPhase::Aborted;
                    return UploadAction::Abort;
                }
                self.phase = UploadPhase::Streaming;
                UploadAction::ReadMore
            },
            UploadEvent::End => {
                if self.phase != UploadPhase::Streaming {
                    self.phase = UploadPhase::Aborted;
                    return UploadAction::Abort;
                }
                self.phase = UploadPhase::Closing;
                UploadAction::Close
            },
            UploadEvent::Closed => {
                if self.phase != UploadPhase::Closing {
                    self.phase = UploadPhase::Aborted;
                    return UploadAction::Abort;
                }
                self.phase = UploadPhase::Completed;
                UploadAction::MarkComplete
            },
            _ => {
                self.phase = UploadPhase::Aborted;
                UploadAction::Abort
            },
        }
    }
}

/// Once an upload stream is completed, the bytes written to the blob are
/// exactly the body that followed the header line on the stream, however
/// the stream was split into reads.
pub proof fn lemma_completed_upload(p: UploadPipeline, header: Seq<u8>, body: Seq<u8>)
    requires
        p.wf(),
        p.phase() == UploadPhase::Completed,
        no_newline(header),
        p.fed() == header + seq![newline()] + body,
    ensures
        p.header_line() == Some(header),
        p.written() == body,
{
    lemma_upload_body(p.framer, header, body);
}

} // verus!
