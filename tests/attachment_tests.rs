use wmtp_core::attachment::{
    begin_upload, blob_key, AttachHeader, Framed, PendingUpload, UploadAbort, UploadAction,
    UploadEvent, UploadFramer, UploadPipeline,
};

fn run(chunks: &[&[u8]]) -> (Option<Vec<u8>>, Vec<u8>) {
    let mut f = UploadFramer::new();
    let mut header = None;
    let mut body = Vec::new();
    for c in chunks {
        match f.feed(c) {
            Framed::NeedMore => {}
            Framed::Header(h, rest) => {
                header = Some(h);
                body.extend_from_slice(&rest);
            }
            Framed::Body(b) => body.extend_from_slice(&b),
        }
    }
    (header, body)
}

#[test]
fn header_then_body_in_one_chunk() {
    let (h, b) = run(&[b"{\"upload_id\":\"u1\"}\nABCDE"]);
    assert_eq!(h, Some(b"{\"upload_id\":\"u1\"}".to_vec()));
    assert_eq!(b, b"ABCDE".to_vec());
}

#[test]
fn header_split_across_chunks() {
    let (h, b) = run(&[b"{\"up", b"load\":1}", b"\nxy", b"z\n\n", b""]);
    assert_eq!(h, Some(b"{\"upload\":1}".to_vec()));
    assert_eq!(b, b"xyz\n\n".to_vec());
}

#[test]
fn body_of_exactly_n_bytes() {
    let body: Vec<u8> = (0..=255u8).cycle().take(10_000).collect();
    let mut stream = b"hdr\n".to_vec();
    stream.extend_from_slice(&body);
    let chunks: Vec<&[u8]> = stream.chunks(777).collect();
    let (h, b) = run(&chunks);
    assert_eq!(h, Some(b"hdr".to_vec()));
    assert_eq!(b.len(), 10_000);
    assert_eq!(b, body);
}

#[test]
fn no_newline_means_no_header() {
    let (h, b) = run(&[b"abc", b"def"]);
    assert!(h.is_none());
    assert!(b.is_empty());
}

#[test]
fn blob_key_is_deterministic() {
    assert_eq!(blob_key("u1"), "attach:u1");
    assert_eq!(blob_key("u1"), blob_key("u1"));
}

fn header(id: &str) -> AttachHeader {
    AttachHeader {
        upload_id: id.to_string(),
        filename: "f.txt".to_string(),
        mime_type: "text/plain".to_string(),
        size_bytes: 5,
    }
}

fn pending(id: &str) -> PendingUpload {
    PendingUpload {
        upload_id: id.to_string(),
        filename: "f.txt".to_string(),
        mime_type: "text/plain".to_string(),
        size_bytes: 5,
        completed: false,
    }
}

#[test]
fn unknown_upload_is_aborted() {
    assert_eq!(begin_upload(&header("u1"), None), Err(UploadAbort::UnknownUpload));
    let other = pending("u2");
    assert_eq!(begin_upload(&header("u1"), Some(&other)), Err(UploadAbort::UnknownUpload));
    let p = pending("u1");
    assert_eq!(begin_upload(&header("u1"), Some(&p)), Ok("attach:u1".to_string()));
}

#[test]
fn completion_flips_once() {
    let mut p = pending("u1");
    assert!(p.complete());
    assert!(p.completed);
    assert!(!p.complete());
    assert!(p.completed);
    assert_eq!(p.upload_id, "u1");
}

/// Drives a pipeline over `chunks` with every outside step succeeding;
/// returns the bytes written, the key opened, and whether it completed.
fn drive(chunks: &[&[u8]], pending: Option<PendingUpload>) -> (Vec<u8>, Option<String>, bool) {
    let mut p = UploadPipeline::new();
    let mut next = 0;
    let mut written = Vec::new();
    let mut key = None;
    let mut action = UploadAction::ReadMore;
    let mut pending = pending;
    loop {
        let event = match action {
            UploadAction::ReadMore => {
                if next < chunks.len() {
                    next += 1;
                    UploadEvent::Data(chunks[next - 1].to_vec())
                } else {
                    UploadEvent::End
                }
            }
            UploadAction::Inspect(line) => {
                let id = String::from_utf8(line).unwrap();
                UploadEvent::Inspected(Some(header(&id)), pending.take())
            }
            UploadAction::Open(k) => {
                key = Some(k);
                UploadEvent::Opened
            }
            UploadAction::Write(b) => {
                written.extend_from_slice(&b);
                UploadEvent::Written
            }
            UploadAction::Close => UploadEvent::Closed,
            UploadAction::MarkComplete => return (written, key, true),
            UploadAction::Abort | UploadAction::Stop => return (written, key, false),
        };
        action = p.step(event);
    }
}

#[test]
fn pipeline_stores_exactly_the_body() {
    let (w, k, done) = drive(&[b"u1\nhel", b"lo", b" world"], Some(pending("u1")));
    assert_eq!(w, b"hello world".to_vec());
    assert_eq!(k, Some("attach:u1".to_string()));
    assert!(done);
}

#[test]
fn pipeline_unknown_upload_writes_nothing() {
    let (w, k, done) = drive(&[b"u9\nabc"], None);
    assert!(w.is_empty());
    assert!(k.is_none());
    assert!(!done);
    let (w, k, done) = drive(&[b"u9\nabc"], Some(pending("u1")));
    assert!(w.is_empty() && k.is_none() && !done);
}

#[test]
fn pipeline_without_header_never_completes() {
    let (w, _, done) = drive(&[b"no newline"], Some(pending("u1")));
    assert!(w.is_empty());
    assert!(!done);
}

#[test]
fn pipeline_failures_abort_for_good() {
    let mut p = UploadPipeline::new();
    assert!(matches!(p.step(UploadEvent::Data(b"u1\nab".to_vec())), UploadAction::Inspect(_)));
    assert!(matches!(
        p.step(UploadEvent::Inspected(Some(header("u1")), Some(pending("u1")))),
        UploadAction::Open(_)
    ));
    assert!(matches!(p.step(UploadEvent::Opened), UploadAction::Write(_)));
    assert!(matches!(p.step(UploadEvent::Written), UploadAction::ReadMore));
    assert!(matches!(p.step(UploadEvent::ReadFailed), UploadAction::Abort));
    assert!(matches!(p.step(UploadEvent::End), UploadAction::Abort));
    assert!(matches!(p.step(UploadEvent::Closed), UploadAction::Abort));

    let mut p = UploadPipeline::new();
    p.step(UploadEvent::Data(b"u1\n".to_vec()));
    p.step(UploadEvent::Inspected(Some(header("u1")), Some(pending("u1"))));
    assert!(matches!(p.step(UploadEvent::Opened), UploadAction::ReadMore));
    assert!(matches!(p.step(UploadEvent::End), UploadAction::Close));
    assert!(matches!(p.step(UploadEvent::CloseFailed), UploadAction::Abort));
    assert!(matches!(p.step(UploadEvent::Closed), UploadAction::Abort));
}

#[test]
fn pipeline_malformed_header_aborts() {
    let mut p = UploadPipeline::new();
    p.step(UploadEvent::Data(b"{not json\n".to_vec()));
    assert!(matches!(p.step(UploadEvent::Inspected(None, None)), UploadAction::Abort));
}

#[test]
fn pipeline_completes_once() {
    let mut p = UploadPipeline::new();
    p.step(UploadEvent::Data(b"u1\n".to_vec()));
    p.step(UploadEvent::Inspected(Some(header("u1")), Some(pending("u1"))));
    p.step(UploadEvent::Opened);
    p.step(UploadEvent::End);
    assert!(matches!(p.step(UploadEvent::Closed), UploadAction::MarkComplete));
    assert!(matches!(p.step(UploadEvent::Closed), UploadAction::Stop));
    assert!(matches!(p.step(UploadEvent::End), UploadAction::Stop));
}
