use flowy_document::actor::{save_result, Command, DocumentActor, Reply, StoreError};
use flowy_document::codec::{decode_delta, decode_revision, export};
use flowy_document::delta::{Delta, Glyph};
use flowy_document::document::{Attribute, Document, Interval};
use flowy_document::error::DocError;

fn empty_body() -> Delta {
    Delta { base_len: 0, index: 0, delete: 0, insert: Vec::new() }
}

fn cells(text: &[u8]) -> Vec<Glyph> {
    text.iter().map(|&ch| Glyph { ch, style: 0 }).collect()
}

fn actor_with(text: &[u8]) -> DocumentActor {
    DocumentActor::new(
        "doc-1".to_string(),
        Delta { base_len: 0, index: 0, delete: 0, insert: cells(text) },
    )
}

fn text_of(actor: &DocumentActor) -> Vec<u8> {
    actor.document().text()
}

fn revision_bytes(rev_id: u64, payload: &[u8]) -> Vec<u8> {
    let mut out = rev_id.to_be_bytes().to_vec();
    out.extend_from_slice(payload);
    out
}

fn payload(base_len: u32, index: u32, delete: u32, text: &[u8]) -> Vec<u8> {
    let mut out = Vec::new();
    out.extend_from_slice(&base_len.to_be_bytes());
    out.extend_from_slice(&index.to_be_bytes());
    out.extend_from_slice(&delete.to_be_bytes());
    for &ch in text {
        out.push(ch);
        out.push(0);
    }
    out
}

#[test]
fn insert_undo_redo_scenario() {
    let mut actor = DocumentActor::new("doc-1".to_string(), empty_body());
    let reply = actor.handle_message(Command::Insert { index: 0, data: b"abc".to_vec() });
    let expected = Delta { base_len: 0, index: 0, delete: 0, insert: cells(b"abc") };
    assert_eq!(reply, Reply::Edited(Ok(expected)));
    assert_eq!(text_of(&actor), b"abc".to_vec());
    assert_eq!(actor.handle_message(Command::CanUndo), Reply::Flag(true));
    assert_eq!(actor.handle_message(Command::Undo), Reply::History(Ok(())));
    assert_eq!(text_of(&actor), Vec::<u8>::new());
    assert_eq!(actor.handle_message(Command::CanRedo), Reply::Flag(true));
    assert_eq!(actor.handle_message(Command::Redo), Reply::History(Ok(())));
    assert_eq!(text_of(&actor), b"abc".to_vec());
}

#[test]
fn save_with_exhausted_pool_reports_connection_error() {
    let mut actor = actor_with(b"hello");
    let reply = actor.handle_message(Command::SaveDocument(9));
    let changeset = match reply {
        Reply::Persist(cs) => cs,
        other => panic!("unexpected reply {:?}", other),
    };
    assert_eq!(changeset.id, "doc-1".to_string());
    assert_eq!(changeset.rev_id, 9);
    assert_eq!(changeset.data, export(&cells(b"hello")));
    assert_eq!(save_result(Err(StoreError::Connection)), Err(DocError::Connection));
    assert_eq!(text_of(&actor), b"hello".to_vec());
    assert_eq!(actor.handle_message(Command::CanUndo), Reply::Flag(false));
}

#[test]
fn save_outcomes_map_to_errors() {
    assert_eq!(save_result(Ok(())), Ok(()));
    assert_eq!(save_result(Err(StoreError::Storage)), Err(DocError::Storage));
}

#[test]
fn remote_revision_with_corrupt_payload_is_decode_error() {
    let mut actor = actor_with(b"abc");
    // a payload of five bytes is shorter than the delta header
    let bytes = revision_bytes(3, &[1, 2, 3, 4, 5]);
    let reply = actor.handle_message(Command::RemoteRevision(bytes));
    assert_eq!(reply, Reply::Transformed(Err(DocError::Decode)));
    assert_eq!(text_of(&actor), b"abc".to_vec());
    assert_eq!(actor.handle_message(Command::CanUndo), Reply::Flag(false));
    // cells that are not whole byte pairs
    let mut odd = payload(0, 0, 0, b"x");
    odd.push(7);
    let reply = actor.handle_message(Command::RemoteRevision(revision_bytes(3, &odd)));
    assert_eq!(reply, Reply::Transformed(Err(DocError::Decode)));
}

#[test]
fn remote_revision_with_short_envelope_is_decode_error() {
    let mut actor = actor_with(b"abc");
    let reply = actor.handle_message(Command::RemoteRevision(vec![0, 0, 1]));
    assert_eq!(reply, Reply::Transformed(Err(DocError::Decode)));
    assert_eq!(text_of(&actor), b"abc".to_vec());
}

#[test]
fn remote_revision_on_stale_base_is_transform_error() {
    let mut actor = actor_with(b"abc");
    let bytes = revision_bytes(4, &payload(5, 0, 0, b"x"));
    let reply = actor.handle_message(Command::RemoteRevision(bytes));
    assert_eq!(reply, Reply::Transformed(Err(DocError::Transform)));
    assert_eq!(text_of(&actor), b"abc".to_vec());
}

#[test]
fn remote_revision_transforms_and_converges() {
    let mut actor = actor_with(b"abc");
    let bytes = revision_bytes(0x0102_0304_0506_0708, &payload(0, 0, 0, b"xy"));
    let reply = actor.handle_message(Command::RemoteRevision(bytes));
    let pair = match reply {
        Reply::Transformed(Ok(pair)) => pair,
        other => panic!("unexpected reply {:?}", other),
    };
    assert_eq!(pair.server_rev_id, 0x0102_0304_0506_0708);
    // the document is untouched by the merge
    assert_eq!(text_of(&actor), b"abc".to_vec());
    // the local body goes first: "abc" then "xy"
    let local_then_server = pair.server_prime.apply_to(&cells(b"abc")).unwrap();
    let remote_then_client = pair.client_prime.apply_to(&cells(b"xy")).unwrap();
    assert_eq!(local_then_server, cells(b"abcxy"));
    assert_eq!(remote_then_client, cells(b"abcxy"));
    // composing the server prime advances the document
    let reply = actor.handle_message(Command::Compose(pair.server_prime));
    assert_eq!(reply, Reply::Composed(Ok(())));
    assert_eq!(text_of(&actor), b"abcxy".to_vec());
}

#[test]
fn failed_compose_leaves_document_unchanged() {
    let mut actor = actor_with(b"abc");
    actor.handle_message(Command::Insert { index: 3, data: b"d".to_vec() });
    actor.handle_message(Command::Undo);
    let before_doc = actor.document().cells().clone();
    let stale = Delta { base_len: 10, index: 0, delete: 1, insert: Vec::new() };
    assert_eq!(actor.handle_message(Command::Compose(stale)), Reply::Composed(Err(DocError::Merge)));
    let out_of_range = Delta { base_len: 3, index: 2, delete: 2, insert: Vec::new() };
    assert_eq!(
        actor.handle_message(Command::Compose(out_of_range)),
        Reply::Composed(Err(DocError::Merge))
    );
    assert_eq!(actor.document().cells().clone(), before_doc);
    // the redo entry survives a failed compose
    assert_eq!(actor.handle_message(Command::CanRedo), Reply::Flag(true));
}

#[test]
fn compose_applies_and_clears_redo() {
    let mut actor = actor_with(b"abc");
    actor.handle_message(Command::Delete(Interval { start: 0, end: 1 }));
    actor.handle_message(Command::Undo);
    assert_eq!(actor.handle_message(Command::CanRedo), Reply::Flag(true));
    let delta = Delta { base_len: 3, index: 1, delete: 1, insert: cells(b"ZZ") };
    assert_eq!(actor.handle_message(Command::Compose(delta)), Reply::Composed(Ok(())));
    assert_eq!(text_of(&actor), b"aZZc".to_vec());
    assert_eq!(actor.handle_message(Command::CanRedo), Reply::Flag(false));
    assert_eq!(actor.handle_message(Command::Undo), Reply::History(Ok(())));
    assert_eq!(text_of(&actor), b"abc".to_vec());
}

#[test]
fn insert_past_end_is_validation_error() {
    let mut actor = actor_with(b"ab");
    let reply = actor.handle_message(Command::Insert { index: 3, data: b"x".to_vec() });
    assert_eq!(reply, Reply::Edited(Err(DocError::Validation)));
    assert_eq!(text_of(&actor), b"ab".to_vec());
}

#[test]
fn delete_returns_minimal_delta() {
    let mut actor = actor_with(b"hello");
    let reply = actor.handle_message(Command::Delete(Interval { start: 1, end: 3 }));
    let expected = Delta { base_len: 5, index: 1, delete: 2, insert: Vec::new() };
    assert_eq!(reply, Reply::Edited(Ok(expected)));
    assert_eq!(text_of(&actor), b"hlo".to_vec());
}

#[test]
fn bad_intervals_are_validation_errors() {
    let mut actor = actor_with(b"hello");
    for iv in [Interval { start: 3, end: 2 }, Interval { start: 2, end: 6 }] {
        assert_eq!(actor.handle_message(Command::Delete(iv)), Reply::Edited(Err(DocError::Validation)));
        let fmt = Command::Format { interval: iv, attribute: Attribute { mask: 1, enabled: true } };
        assert_eq!(actor.handle_message(fmt), Reply::Edited(Err(DocError::Validation)));
        let rep = Command::Replace { interval: iv, data: b"x".to_vec() };
        assert_eq!(actor.handle_message(rep), Reply::Edited(Err(DocError::Validation)));
    }
    assert_eq!(text_of(&actor), b"hello".to_vec());
    assert_eq!(actor.handle_message(Command::CanUndo), Reply::Flag(false));
}

#[test]
fn format_sets_and_clears_style_bits() {
    let mut actor = actor_with(b"abc");
    let bold = Attribute { mask: 0b101, enabled: true };
    let reply = actor.handle_message(Command::Format { interval: Interval { start: 1, end: 3 }, attribute: bold });
    let styled = vec![Glyph { ch: b'b', style: 5 }, Glyph { ch: b'c', style: 5 }];
    let expected = Delta { base_len: 3, index: 1, delete: 2, insert: styled };
    assert_eq!(reply, Reply::Edited(Ok(expected)));
    let clear = Attribute { mask: 0b001, enabled: false };
    actor.handle_message(Command::Format { interval: Interval { start: 0, end: 2 }, attribute: clear });
    let expected_cells = vec![
        Glyph { ch: b'a', style: 0 },
        Glyph { ch: b'b', style: 4 },
        Glyph { ch: b'c', style: 5 },
    ];
    assert_eq!(actor.document().cells().clone(), expected_cells);
    assert_eq!(text_of(&actor), b"abc".to_vec());
}

#[test]
fn replace_swaps_interval() {
    let mut actor = actor_with(b"hello");
    let reply = actor.handle_message(Command::Replace { interval: Interval { start: 1, end: 4 }, data: b"EY".to_vec() });
    let expected = Delta { base_len: 5, index: 1, delete: 3, insert: cells(b"EY") };
    assert_eq!(reply, Reply::Edited(Ok(expected)));
    assert_eq!(text_of(&actor), b"hEYo".to_vec());
}

#[test]
fn undo_and_redo_on_empty_history() {
    let mut actor = actor_with(b"x");
    assert_eq!(actor.handle_message(Command::Undo), Reply::History(Err(DocError::NoHistory)));
    assert_eq!(actor.handle_message(Command::Redo), Reply::History(Err(DocError::NoHistory)));
    assert_eq!(actor.handle_message(Command::CanUndo), Reply::Flag(false));
    assert_eq!(actor.handle_message(Command::CanRedo), Reply::Flag(false));
}

#[test]
fn undo_then_redo_restores_content() {
    let mut actor = actor_with(b"base");
    actor.handle_message(Command::Insert { index: 4, data: b"!".to_vec() });
    actor.handle_message(Command::Replace { interval: Interval { start: 0, end: 1 }, data: b"c".to_vec() });
    let before = actor.document().cells().clone();
    actor.handle_message(Command::Undo);
    assert_eq!(text_of(&actor), b"base!".to_vec());
    actor.handle_message(Command::Redo);
    assert_eq!(actor.document().cells().clone(), before);
    assert_eq!(text_of(&actor), b"case!".to_vec());
}

#[test]
fn history_keeps_the_latest_twenty_edits() {
    let mut actor = actor_with(b"");
    for i in 0..25u8 {
        actor.handle_message(Command::Insert { index: i as usize, data: vec![b'a' + i] });
    }
    for _ in 0..20 {
        assert_eq!(actor.handle_message(Command::Undo), Reply::History(Ok(())));
    }
    assert_eq!(actor.handle_message(Command::Undo), Reply::History(Err(DocError::NoHistory)));
    assert_eq!(text_of(&actor), b"abcde".to_vec());
}

#[test]
fn length_follows_signed_changes() {
    let mut actor = actor_with(b"0123456789");
    actor.handle_message(Command::Insert { index: 2, data: b"abc".to_vec() });
    actor.handle_message(Command::Delete(Interval { start: 0, end: 4 }));
    actor.handle_message(Command::Insert { index: 0, data: b"zz".to_vec() });
    actor.handle_message(Command::Delete(Interval { start: 5, end: 6 }));
    // 10 + 3 - 4 + 2 - 1
    assert_eq!(actor.document().len(), 10);
}

#[test]
fn commands_run_in_arrival_order() {
    let mut actor = actor_with(b"");
    let cmds = vec![
        Command::Insert { index: 0, data: b"ab".to_vec() },
        Command::Insert { index: 2, data: b"cd".to_vec() },
        Command::Delete(Interval { start: 0, end: 1 }),
        Command::Undo,
        Command::CanRedo,
        Command::Doc,
    ];
    let replies = actor.handle_all(cmds);
    assert_eq!(replies.len(), 6);
    assert_eq!(
        replies[1],
        Reply::Edited(Ok(Delta { base_len: 2, index: 2, delete: 0, insert: cells(b"cd") }))
    );
    assert_eq!(replies[3], Reply::History(Ok(())));
    assert_eq!(replies[4], Reply::Flag(true));
    assert_eq!(replies[5], Reply::Body(export(&cells(b"abcd"))));
    assert_eq!(text_of(&actor), b"abcd".to_vec());
}

#[test]
fn doc_reply_is_the_exported_body() {
    let mut actor = actor_with(b"hi");
    let reply = actor.handle_message(Command::Doc);
    assert_eq!(reply, Reply::Body(vec![0, 0, 0, 0, 0, 0, 0, 0, 0, 0, 0, 0, b'h', 0, b'i', 0]));
}

#[test]
fn export_reads_back_as_body() {
    let content = vec![Glyph { ch: b'q', style: 3 }, Glyph { ch: b'r', style: 0 }];
    let bytes = export(&content);
    let body = decode_delta(&bytes).unwrap();
    assert_eq!(body, Delta { base_len: 0, index: 0, delete: 0, insert: content });
}

#[test]
fn decode_revision_reads_big_endian_id() {
    let rev = decode_revision(&vec![0, 0, 0, 0, 0, 0, 1, 2, 9, 8]).unwrap();
    assert_eq!(rev.rev_id, 258);
    assert_eq!(rev.delta_data, vec![9, 8]);
    assert_eq!(decode_revision(&vec![1, 2, 3, 4, 5, 6, 7]), Err(DocError::Decode));
}

#[test]
fn decode_delta_reads_header_and_cells() {
    let mut bytes = payload(0x0100_0002, 1, 2, b"");
    bytes.extend_from_slice(&[b'k', 9]);
    let d = decode_delta(&bytes).unwrap();
    assert_eq!(d, Delta { base_len: 0x0100_0002, index: 1, delete: 2, insert: vec![Glyph { ch: b'k', style: 9 }] });
    assert_eq!(decode_delta(&vec![0; 11]), Err(DocError::Decode));
}

#[test]
fn transform_of_disjoint_edits_shifts() {
    let doc = cells(b"abcdef");
    let a = Delta { base_len: 6, index: 1, delete: 1, insert: cells(b"XYZ") };
    let b = Delta { base_len: 6, index: 4, delete: 2, insert: cells(b"Q") };
    let (a2, b2) = a.transform(&b).unwrap();
    assert_eq!(b2, Delta { base_len: 8, index: 6, delete: 2, insert: cells(b"Q") });
    assert_eq!(a2, Delta { base_len: 5, index: 1, delete: 1, insert: cells(b"XYZ") });
    let left = b2.apply_to(&a.apply_to(&doc).unwrap()).unwrap();
    let right = a2.apply_to(&b.apply_to(&doc).unwrap()).unwrap();
    assert_eq!(left, cells(b"aXYZcdQ"));
    assert_eq!(right, left);
}

#[test]
fn transform_of_overlapping_edits_merges() {
    let doc = cells(b"abcdef");
    let a = Delta { base_len: 6, index: 1, delete: 3, insert: cells(b"X") };
    let b = Delta { base_len: 6, index: 2, delete: 3, insert: cells(b"Y") };
    let (a2, b2) = a.transform(&b).unwrap();
    let left = b2.apply_to(&a.apply_to(&doc).unwrap()).unwrap();
    let right = a2.apply_to(&b.apply_to(&doc).unwrap()).unwrap();
    assert_eq!(left, cells(b"aXYf"));
    assert_eq!(right, left);
    let other_base = Delta { base_len: 5, index: 0, delete: 0, insert: Vec::new() };
    assert!(a.transform(&other_base).is_none());
}

#[test]
fn inserts_at_one_place_put_local_first() {
    let doc = cells(b"ab");
    let a = Delta { base_len: 2, index: 1, delete: 0, insert: cells(b"L") };
    let b = Delta { base_len: 2, index: 1, delete: 0, insert: cells(b"R") };
    let (a2, b2) = a.transform(&b).unwrap();
    let left = b2.apply_to(&a.apply_to(&doc).unwrap()).unwrap();
    let right = a2.apply_to(&b.apply_to(&doc).unwrap()).unwrap();
    assert_eq!(left, cells(b"aLRb"));
    assert_eq!(right, left);
}

#[test]
fn document_from_body_and_inverse() {
    let mut doc = Document::from_delta(Delta { base_len: 0, index: 0, delete: 0, insert: cells(b"xyz") });
    assert_eq!(doc.delta(), Delta { base_len: 0, index: 0, delete: 0, insert: cells(b"xyz") });
    let d = Delta { base_len: 3, index: 1, delete: 1, insert: cells(b"QQ") };
    let inv = d.inverse_of(&cells(b"xyz"), 4);
    assert_eq!(inv, Delta { base_len: 4, index: 1, delete: 2, insert: cells(b"y") });
    assert_eq!(doc.compose_delta(d), Ok(()));
    assert_eq!(doc.text(), b"xQQz".to_vec());
    assert_eq!(doc.undo(), Ok(()));
    assert_eq!(doc.text(), b"xyz".to_vec());
}
