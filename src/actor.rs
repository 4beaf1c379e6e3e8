use vstd::prelude::*;
use crate::codec::{
    be_u64, decode_delta, decode_revision, export, export_bytes, payload_delta,
    payload_well_formed, REV_ID_BYTES,
};
use crate::delta::{transform_spec, transformable, Delta, DeltaView, Glyph};
use crate::document::{Attribute, Document, DocumentView, Interval};
use crate::error::DocError;

verus! {

/// A persistence record: the exported body of a document at a revision.
#[derive(Debug, PartialEq, Eq)]
pub struct Changeset {
    pub id: String,
    pub data: Vec<u8>,
    pub rev_id: u64,
}

/// The outcome of merging a remote revision: `server_prime` applies after
/// the local document delta, `client_prime` after the incoming delta.
#[derive(Debug, PartialEq, Eq)]
pub struct TransformDeltas {
    pub client_prime: Delta,
    pub server_prime: Delta,
    pub server_rev_id: u64,
}

/// The failures that the storage behind a document can report.
#[derive(Clone, Copy, PartialEq, Eq, Structural, Debug)]
pub enum StoreError {
    /// No pooled connection could be had.
    Connection,
    /// The transactional update failed.
    Storage,
}

/// A request to the actor of one document.
#[derive(Debug, PartialEq, Eq)]
pub enum Command {
    Compose(Delta),
    RemoteRevision(Vec<u8>),
    Insert { index: usize, data: Vec<u8> },
    Delete(Interval),
    Format { interval: Interval, attribute: Attribute },
    Replace { interval: Interval, data: Vec<u8> },
    CanUndo,
    CanRedo,
    Undo,
    Redo,
    Doc,
    SaveDocument(u64),
}

/// The answer to one command. `Persist` asks the caller to write the
/// changeset to storage and hand the outcome to `save_result`.
#[derive(Debug, PartialEq, Eq)]
pub enum Reply {
    Composed(Result<(), DocError>),
    Transformed(Result<TransformDeltas, DocError>),
    Edited(Result<Delta, DocError>),
    Flag(bool),
    History(Result<(), DocError>),
    Body(Vec<u8>),
    Persist(Changeset),
}

/// The body delta of a document's content.
pub open spec fn body_delta(content: Seq<Glyph>) -> DeltaView {
    DeltaView { base_len: 0, index: 0, delete: 0, insert: content }
}

/// What merging the revision `bytes` against `content` yields:
/// `(server_prime, client_prime, rev_id)` or the error.
pub open spec fn remote_spec(content: Seq<Glyph>, bytes: Seq<u8>) -> Result<
    (DeltaView, DeltaView, int),
    DocError,
> {
    if bytes.len() < REV_ID_BYTES {
        Err(DocError::Decode)
    } else {
        let payload = bytes.subrange(REV_ID_BYTES as int, bytes.len() as int);
        if !payload_well_formed(payload) {
            Err(DocError::Decode)
        } else {
            let local = body_delta(content);
            let remote = payload_delta(payload);
            if !transformable(local, remote) {
                Err(DocError::Transform)
            } else {
                let (local2, remote2) = transform_spec(local, remote);
                Ok((remote2, local2, be_u64(bytes, 0)))
            }
        }
    }
}

/// The document state after one command.
pub open spec fn after(d: DocumentView, c: Command) -> DocumentView {
    match c {
        Command::Compose(delta) => if delta@.applies_to(d.content) {
            d.record(delta@)
        } else {
            d
        },
        Command::Insert { index, data } => if index <= d.content.len() {
            d.record(d.insert_delta(index as nat, data@))
        } else {
            d
        },
        Command::Delete(iv) => if d.valid_interval(iv) {
            d.record(d.delete_delta(iv))
        } else {
            d
        },
        Command::Format { interval, attribute } => if d.valid_interval(interval) {
            d.record(d.format_delta(interval, attribute))
        } else {
            d
        },
        Command::Replace { interval, data } => if d.valid_interval(interval) {
            d.record(d.replace_delta(interval, data@))
        } else {
            d
        },
        Command::Undo => if d.undos.len() > 0 {
            d.undone()
        } else {
            d
        },
        Command::Redo => if d.redos.len() > 0 {
            d.redone()
        } else {
            d
        },
        _ => d,
    }
}

/// The document state after the commands of `cmds`, one at a time, in order.
pub open spec fn after_all(d: DocumentView, cmds: Seq<Command>) -> DocumentView
    decreases cmds.len(),
{
    if cmds.len() == 0 {
        d
    } else {
        after(after_all(d, cmds.drop_last()), cmds.last())
    }
}

/// `r` is the answer that the command `c` gets from the document `d` whose id is `id`.
pub open spec fn reply_ok(id: Seq<char>, d: DocumentView, c: Command, r: Reply) -> bool {
    match c {
        Command::Compose(delta) => r == Reply::Composed(
            if delta@.applies_to(d.content) {
                Ok(())
            } else {
                Err(DocError::Merge)
            },
        ),
        Command::RemoteRevision(bytes) => r matches Reply::Transformed(res) && match remote_spec(
            d.content,
            bytes@,
        ) {
            Ok((server, client, rev_id)) => res matches Ok(t) && t.server_prime@ == server
                && t.client_prime@ == client && t.server_rev_id == rev_id,
            Err(e) => res == Err::<TransformDeltas, DocError>(e),
        },
        Command::Insert { index, data } => r matches Reply::Edited(res) && if index
            <= d.content.len() {
            res matches Ok(delta) && delta@ == d.insert_delta(index as nat, data@)
        } else {
            res == Err::<Delta, DocError>(DocError::Validation)
        },
        Command::Delete(iv) => r matches Reply::Edited(res) && if d.valid_interval(iv) {
            res matches Ok(delta) && delta@ == d.delete_delta(iv)
        } else {
            res == Err::<Delta, DocError>(DocError::Validation)
        },
        Command::Format { interval, attribute } => r matches Reply::Edited(res) && if d.valid_interval(
            interval,
        ) {
            res matches Ok(delta) && delta@ == d.format_delta(interval, attribute)
        } else {
            res == Err::<Delta, DocError>(DocError::Validation)
        },
        Command::Replace { interval, data } => r matches Reply::Edited(res) && if d.valid_interval(
            interval,
        ) {
            res matches Ok(delta) && delta@ == d.replace_delta(interval, data@)
        } else {
            res == Err::<Delta, DocError>(DocError::Validation)
        },
        Command::CanUndo => r == Reply::Flag(d.undos.len() > 0),
        Command::CanRedo => r == Reply::Flag(d.redos.len() > 0),
        Command::Undo => r == Reply::History(
            if d.undos.len() > 0 {
                Ok(())
            } else {
                Err(DocError::NoHistory)
            },
        ),
        Command::Redo => r == Reply::History(
            if d.redos.len() > 0 {
                Ok(())
            } else {
                Err(DocError::NoHistory)
            },
        ),
        Command::Doc => r matches Reply::Body(b) && b@ == export_bytes(d.content),
        Command::SaveDocument(rev_id) => r matches Reply::Persist(cs) && cs.id@ == id && cs.data@
            == export_bytes(d.content) && cs.rev_id == rev_id,
    }
}

/// The single owner of one document: every command on it passes through
/// `handle_message`, one at a time.
#[derive(Debug, PartialEq, Eq)]
pub struct DocumentActor {
    doc_id: String,
    document: Document,
}

/// Maps the outcome of a storage write to the answer of `SaveDocument`.
pub fn save_result(outcome: Result<(), StoreError>) -> (r: Result<(), DocError>)
    ensures
        outcome is Ok ==> r is Ok,
        outcome == Err::<(), StoreError>(StoreError::Connection) ==> r == Err::<(), DocError>(
            DocError::Connection,
        ),
        outcome == Err::<(), StoreError>(StoreError::Storage) ==> r == Err::<(), DocError>(
            DocError::Storage,
        ),
{
    match outcome {
        Ok(()) => Ok(()),
        Err(StoreError::Connection) => Err(DocError::Connection),
        Err(StoreError::Storage) => Err(DocError::Storage),
    }
}

impl DocumentActor {
    /// The model of the document that the actor owns.
    pub closed spec fn doc(&self) -> DocumentView {
        self.document@
    }

    pub closed spec fn id(&self) -> Seq<char> {
        self.doc_id@
    }

    /// An actor for the document `doc_id` whose body is `delta`.
    pub fn new(doc_id: String, delta: Delta) -> (r: DocumentActor)
        requires
            delta@.applies_to(Seq::empty()),
        ensures
            r.doc().wf(),
            r.id() == doc_id@,
            r.doc().content == delta@.insert,
            r.doc().undos.len() == 0,
            r.doc().redos.len() == 0,
    {
        DocumentActor { doc_id, document: Document::from_delta(delta) }
    }

    /// The document, for reading.
    pub fn document(&self) -> (r: &Document)
        ensures
            r@ == self.doc(),
    {
        &self.document
    }

    /// Merges a remote revision against the document without changing it.
    pub fn transform_remote(&self, bytes: &Vec<u8>) -> (r: Result<TransformDeltas, DocError>)
        ensures
            match remote_spec(self.doc().content, bytes@) {
                Ok((server, client, rev_id)) => r matches Ok(t) && t.server_prime@ == server
                    && t.client_prime@ == client && t.server_rev_id == rev_id,
                Err(e) => r == Err::<TransformDeltas, DocError>(e),
            },
    {
        let revision = match decode_revision(bytes) {
            Ok(rev) => rev,
            Err(e) => return Err(e),
        };
        let remote = match decode_delta(&revision.delta_data) {
            Ok(d) => d,
            Err(e) => return Err(e),
        };
        let local = self.document.delta();
        match local.transform(&remote) {
            None => Err(DocError::Transform),
            Some((local2, remote2)) => Ok(
                TransformDeltas {
                    client_prime: local2,
                    server_prime: remote2,
                    server_rev_id: revision.rev_id,
                },
            ),
        }
    }

    /// The changeset that saves the document at `rev_id`.
    pub fn changeset(&self, rev_id: u64) -> (r: Changeset)
        ensures
            r.id@ == self.id(),
            r.data@ == export_bytes(self.doc().content),
            r.rev_id == rev_id,
    {
        Changeset { id: self.doc_id.clone(), data: export(self.document.cells()), rev_id }
    }

    /// Carries out one command and gives its answer.
    pub fn handle_message(&mut self, cmd: Command) -> (r: Reply)
        requires
            old(self).doc().wf(),
        ensures
            final(self).doc().wf(),
            final(self).id() == old(self).id(),
            final(self).doc() == after(old(self).doc(), cmd),
            reply_ok(old(self).id(), old(self).doc(), cmd, r),
    {
        match cmd {
            Command::Compose(delta) => Reply::Composed(self.document.compose_delta(delta)),
            Command::RemoteRevision(bytes) => Reply::Transformed(self.transform_remote(&bytes)),
            Command::Insert { index, data } => Reply::Edited(self.document.insert(index, &data)),
            Command::Delete(interval) => Reply::Edited(self.document.delete(interval)),
            Command::Format { interval, attribute } => Reply::Edited(
                self.document.format(interval, attribute),
            ),
            Command::Replace { interval, data } => Reply::Edited(
                self.document.replace(interval, &data),
            ),
            Command::CanUndo => Reply::Flag(self.document.can_undo()),
            Command::CanRedo => Reply::Flag(self.document.can_redo()),
            Command::Undo => Reply::History(self.document.undo()),
            Command::Redo => Reply::History(self.document.redo()),
            Command::Doc => Reply::Body(export(self.document.cells())),
            Command::SaveDocument(rev_id) => Reply::Persist(self.changeset(rev_id)),
        }
    }

    /// Carries out `cmds` strictly in order, each one whole before the next:
    /// the document ends as the commands taken one at a time leave it, and
    /// each answer is the one its command gets from the state it meets.
    pub fn handle_all(&mut self, cmds: Vec<Command>) -> (r: Vec<Reply>)
        requires
            old(self).doc().wf(),
        ensures
            final(self).doc().wf(),
            final(self).id() == old(self).id(),
            final(self).doc() == after_all(old(self).doc(), cmds@),
            r@.len() == cmds@.len(),
            forall|i: int|
                0 <= i < cmds@.len() ==> #[trigger] reply_ok(
                    old(self).id(),
                    after_all(old(self).doc(), cmds@.take(i)),
                    cmds@[i],
                    r@[i],
                ),
    {
        let ghost all = cmds@;
        let ghost start = self.doc();
        let _n = cmds.len();
        let mut rest = cmds;
        let mut replies: Vec<Reply> = Vec::new();
        let mut i: usize = 0;
        while rest.len() > 0
            invariant
                self.doc().wf(),
                self.id() == old(self).id(),
                start == old(self).doc(),
                i <= all.len() <= usize::MAX,
                rest@ == all.subrange(i as int, all.len() as int),
                replies@.len() == i,
                self.doc() == after_all(start, all.take(i as int)),
                forall|k: int|
                    0 <= k < i ==> #[trigger] reply_ok(
                        old(self).id(),
                        after_all(start, all.take(k)),
                        all[k],
                        replies@[k],
                    ),
            decreases rest.len(),
        {
            let cmd = rest.remove(0);
            assert(cmd == all[i as int]);
            assert(all.take(i + 1).drop_last() =~= all.take(i as int));
            let reply = self.handle_message(cmd);
            replies.push(reply);
            i = i + 1;
        }
        assert(all.take(i as int) =~= all);
        replies
    }
}

} // verus!
