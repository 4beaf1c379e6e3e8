use vstd::prelude::*;
use crate::delta::{lemma_inverse, Delta, DeltaView, Glyph};
use crate::error::DocError;

verus! {

/// The most entries that the undo and redo stacks hold together.
pub const HISTORY_LIMIT: usize = 20;

/// A half-open range `[start, end)` of cells.
#[derive(Clone, Copy, PartialEq, Eq, Structural, Debug)]
pub struct Interval {
    pub start: usize,
    pub end: usize,
}

/// A style change: set (`enabled`) or clear the bits of `mask`.
#[derive(Clone, Copy, PartialEq, Eq, Structural, Debug)]
pub struct Attribute {
    pub mask: u8,
    pub enabled: bool,
}

pub open spec fn styled(g: Glyph, a: Attribute) -> Glyph {
    Glyph { ch: g.ch, style: if a.enabled { g.style | a.mask } else { g.style & !a.mask } }
}

/// Unstyled cells holding the bytes of `data`.
pub open spec fn plain(data: Seq<u8>) -> Seq<Glyph> {
    Seq::new(data.len(), |i: int| Glyph { ch: data[i], style: 0 })
}

/// The text bytes of a run of cells.
pub open spec fn text_of(s: Seq<Glyph>) -> Seq<u8> {
    s.map_values(|g: Glyph| g.ch)
}

/// One entry of the history: the delta that was applied and its inverse.
#[derive(Debug, PartialEq, Eq)]
pub struct Step {
    pub forward: Delta,
    pub backward: Delta,
}

pub ghost struct StepView {
    pub forward: DeltaView,
    pub backward: DeltaView,
}

impl View for Step {
    type V = StepView;

    open spec fn view(&self) -> StepView {
        StepView { forward: self.forward@, backward: self.backward@ }
    }
}

pub open spec fn steps_view(s: Seq<Step>) -> Seq<StepView> {
    s.map_values(|x: Step| x@)
}

/// Each undo entry, from the top down, leads from the content back to an
/// earlier content and its forward delta leads there again.
pub open spec fn undo_chain(content: Seq<Glyph>, undos: Seq<StepView>) -> bool
    decreases undos.len(),
{
    if undos.len() == 0 {
        true
    } else {
        let top = undos.last();
        let prev = top.backward.apply(content);
        &&& top.backward.applies_to(content)
        &&& top.forward.applies_to(prev)
        &&& top.forward.apply(prev) == content
        &&& undo_chain(prev, undos.drop_last())
    }
}

/// Each redo entry, from the top down, leads forward from the content and its
/// backward delta leads back again.
pub open spec fn redo_chain(content: Seq<Glyph>, redos: Seq<StepView>) -> bool
    decreases redos.len(),
{
    if redos.len() == 0 {
        true
    } else {
        let top = redos.last();
        let next = top.forward.apply(content);
        &&& top.forward.applies_to(content)
        &&& top.backward.applies_to(next)
        &&& top.backward.apply(next) == content
        &&& redo_chain(next, redos.drop_last())
    }
}

/// The state of one document: its cells and its undo and redo stacks.
#[derive(Debug, PartialEq, Eq)]
pub struct Document {
    content: Vec<Glyph>,
    undos: Vec<Step>,
    redos: Vec<Step>,
}

pub ghost struct DocumentView {
    pub content: Seq<Glyph>,
    pub undos: Seq<StepView>,
    pub redos: Seq<StepView>,
}

impl View for Document {
    type V = DocumentView;

    closed spec fn view(&self) -> DocumentView {
        DocumentView {
            content: self.content@,
            undos: steps_view(self.undos@),
            redos: steps_view(self.redos@),
        }
    }
}

impl DocumentView {
    pub open spec fn wf(self) -> bool {
        &&& undo_chain(self.content, self.undos)
        &&& redo_chain(self.content, self.redos)
        &&& self.undos.len() + self.redos.len() <= HISTORY_LIMIT
    }

    /// The state after a new edit `d`: it is applied, recorded on the undo
    /// stack (dropping the oldest entry beyond the limit), and the redo stack
    /// is cleared.
    pub open spec fn record(self, d: DeltaView) -> DocumentView {
        let pushed = self.undos.push(StepView { forward: d, backward: d.inverse(self.content) });
        DocumentView {
            content: d.apply(self.content),
            undos: if pushed.len() > HISTORY_LIMIT {
                pushed.subrange(1, pushed.len() as int)
            } else {
                pushed
            },
            redos: Seq::empty(),
        }
    }

    /// The state after undoing the top undo entry.
    pub open spec fn undone(self) -> DocumentView {
        let top = self.undos.last();
        DocumentView {
            content: top.backward.apply(self.content),
            undos: self.undos.drop_last(),
            redos: self.redos.push(top),
        }
    }

    /// The state after redoing the top redo entry.
    pub open spec fn redone(self) -> DocumentView {
        let top = self.redos.last();
        DocumentView {
            content: top.forward.apply(self.content),
            undos: self.undos.push(top),
            redos: self.redos.drop_last(),
        }
    }

    pub open spec fn valid_interval(self, iv: Interval) -> bool {
        iv.start <= iv.end <= self.content.len()
    }

    pub open spec fn insert_delta(self, index: nat, data: Seq<u8>) -> DeltaView {
        DeltaView { base_len: self.content.len(), index, delete: 0, insert: plain(data) }
    }

    pub open spec fn delete_delta(self, iv: Interval) -> DeltaView {
        DeltaView {
            base_len: self.content.len(),
            index: iv.start as nat,
            delete: (iv.end - iv.start) as nat,
            insert: Seq::empty(),
        }
    }

    pub open spec fn format_delta(self, iv: Interval, a: Attribute) -> DeltaView {
        DeltaView {
            base_len: self.content.len(),
            index: iv.start as nat,
            delete: (iv.end - iv.start) as nat,
            insert: Seq::new(
                (iv.end - iv.start) as nat,
                |i: int| styled(self.content[iv.start + i], a),
            ),
        }
    }

    pub open spec fn replace_delta(self, iv: Interval, data: Seq<u8>) -> DeltaView {
        DeltaView {
            base_len: self.content.len(),
            index: iv.start as nat,
            delete: (iv.end - iv.start) as nat,
            insert: plain(data),
        }
    }
}

/// A local text edit, as a value of the model.
pub ghost enum TextEdit {
    Insert { index: nat, data: Seq<u8> },
    Delete { interval: Interval },
}

impl DocumentView {
    pub open spec fn edit_valid(self, e: TextEdit) -> bool {
        match e {
            TextEdit::Insert { index, .. } => index <= self.content.len(),
            TextEdit::Delete { interval } => self.valid_interval(interval),
        }
    }

    pub open spec fn edited(self, e: TextEdit) -> DocumentView {
        match e {
            TextEdit::Insert { index, data } => self.record(self.insert_delta(index, data)),
            TextEdit::Delete { interval } => self.record(self.delete_delta(interval)),
        }
    }

    /// Every edit of `edits`, in turn, is valid on the state it meets.
    pub open spec fn all_valid(self, edits: Seq<TextEdit>) -> bool
        decreases edits.len(),
    {
        edits.len() == 0 || (self.edit_valid(edits[0]) && self.edited(edits[0]).all_valid(
            edits.drop_first(),
        ))
    }

    pub open spec fn edited_all(self, edits: Seq<TextEdit>) -> DocumentView
        decreases edits.len(),
    {
        if edits.len() == 0 {
            self
        } else {
            self.edited(edits[0]).edited_all(edits.drop_first())
        }
    }
}

/// The signed change of length that an edit makes.
pub open spec fn length_change(e: TextEdit) -> int {
    match e {
        TextEdit::Insert { data, .. } => data.len() as int,
        TextEdit::Delete { interval } => -(interval.end - interval.start),
    }
}

pub open spec fn total_length_change(edits: Seq<TextEdit>) -> int
    decreases edits.len(),
{
    if edits.len() == 0 {
        0
    } else {
        length_change(edits[0]) + total_length_change(edits.drop_first())
    }
}

/// After any sequence of valid inserts and deletes, the length of the
/// document is its length before plus the sum of the signed changes.
pub proof fn lemma_length_invariant(d: DocumentView, edits: Seq<TextEdit>)
    requires
        d.all_valid(edits),
    ensures
        d.edited_all(edits).content.len() == d.content.len() + total_length_change(edits),
    decreases edits.len(),
{
    if edits.len() > 0 {
        lemma_length_invariant(d.edited(edits[0]), edits.drop_first());
    }
}

proof fn lemma_drop_oldest(content: Seq<Glyph>, undos: Seq<StepView>)
    requires
        undo_chain(content, undos),
        undos.len() > 0,
    ensures
        undo_chain(content, undos.subrange(1, undos.len() as int)),
    decreases undos.len(),
{
    let rest = undos.subrange(1, undos.len() as int);
    if undos.len() > 1 {
        let prev = undos.last().backward.apply(content);
        lemma_drop_oldest(prev, undos.drop_last());
        assert(rest.drop_last() =~= undos.drop_last().subrange(1, undos.len() - 1));
        assert(rest.last() == undos.last());
    } else {
        assert(rest.len() == 0);
    }
}

/// Recording an edit that applies keeps the history consistent.
pub proof fn lemma_record_wf(d: DocumentView, delta: DeltaView)
    requires
        d.wf(),
        delta.applies_to(d.content),
    ensures
        d.record(delta).wf(),
{
    lemma_inverse(delta, d.content);
    let step = StepView { forward: delta, backward: delta.inverse(d.content) };
    let pushed = d.undos.push(step);
    let after = delta.apply(d.content);
    assert(pushed.drop_last() =~= d.undos);
    assert(undo_chain(after, pushed));
    if pushed.len() > HISTORY_LIMIT {
        lemma_drop_oldest(after, pushed);
    }
}

/// Undo keeps the history consistent.
pub proof fn lemma_undone_wf(d: DocumentView)
    requires
        d.wf(),
        d.undos.len() > 0,
    ensures
        d.undone().wf(),
{
    let top = d.undos.last();
    assert(d.redos.push(top).drop_last() =~= d.redos);
}

/// Redo keeps the history consistent.
pub proof fn lemma_redone_wf(d: DocumentView)
    requires
        d.wf(),
        d.redos.len() > 0,
    ensures
        d.redone().wf(),
{
    let top = d.redos.last();
    assert(d.undos.push(top).drop_last() =~= d.undos);
}

/// An undo followed at once by a redo gives back the state before the undo:
/// the same content and the same undo and redo stacks.
pub proof fn lemma_undo_redo_round_trip(d: DocumentView)
    requires
        d.wf(),
        d.undos.len() > 0,
    ensures
        d.undone().redone() == d,
{
    let u = d.undone();
    let top = d.undos.last();
    assert(u.redos.last() == top);
    assert(u.redone().undos =~= d.undos);
    assert(u.redone().redos =~= d.redos);
}

fn plain_cells(data: &Vec<u8>) -> (r: Vec<Glyph>)
    ensures
        r@ == plain(data@),
{
    let mut out: Vec<Glyph> = Vec::new();
    let mut i: usize = 0;
    while i < data.len()
        invariant
            i <= data@.len(),
            out@ =~= plain(data@.subrange(0, i as int)),
        decreases data.len() - i,
    {
        out.push(Glyph { ch: data[i], style: 0 });
        i = i + 1;
        assert(out@ =~= plain(data@.subrange(0, i as int)));
    }
    assert(data@.subrange(0, i as int) =~= data@);
    out
}

impl Document {
    /// A document whose body is `delta`, with empty history.
    pub fn from_delta(delta: Delta) -> (r: Document)
        requires
            delta@.applies_to(Seq::empty()),
        ensures
            r@.wf(),
            r@.content == delta@.insert,
            r@.undos.len() == 0,
            r@.redos.len() == 0,
    {
        let r = Document { content: delta.insert, undos: Vec::new(), redos: Vec::new() };
        assert(steps_view(r.undos@) =~= Seq::empty());
        assert(steps_view(r.redos@) =~= Seq::empty());
        r
    }

    /// The number of cells.
    pub fn len(&self) -> (r: usize)
        ensures
            r == self@.content.len(),
    {
        self.content.len()
    }

    /// The text bytes of the document.
    pub fn text(&self) -> (r: Vec<u8>)
        ensures
            r@ == text_of(self@.content),
    {
        let mut out: Vec<u8> = Vec::new();
        let mut i: usize = 0;
        while i < self.content.len()
            invariant
                i <= self.content@.len(),
                out@ =~= text_of(self.content@.subrange(0, i as int)),
            decreases self.content.len() - i,
        {
            out.push(self.content[i].ch);
            i = i + 1;
            assert(out@ =~= text_of(self.content@.subrange(0, i as int)));
        }
        assert(self.content@.subrange(0, i as int) =~= self.content@);
        out
    }

    /// The cells of the document.
    pub fn cells(&self) -> (r: &Vec<Glyph>)
        ensures
            r@ == self@.content,
    {
        &self.content
    }

    /// The whole document as a body delta.
    pub fn delta(&self) -> (r: Delta)
        ensures
            r@ == (DeltaView { base_len: 0, index: 0, delete: 0, insert: self@.content }),
    {
        Delta::body_of(&self.content)
    }

    pub fn can_undo(&self) -> (r: bool)
        ensures
            r == (self@.undos.len() > 0),
    {
        self.undos.len() > 0
    }

    pub fn can_redo(&self) -> (r: bool)
        ensures
            r == (self@.redos.len() > 0),
    {
        self.redos.len() > 0
    }

    /// Applies `delta`, which applies to the content, and records it.
    fn commit(&mut self, delta: Delta) -> (r: Delta)
        requires
            old(self)@.wf(),
            delta@.applies_to(old(self)@.content),
        ensures
            final(self)@ == old(self)@.record(delta@),
            final(self)@.wf(),
            r@ == delta@,
    {
        proof {
            lemma_record_wf(self@, delta@);
        }
        let ghost before = self@;
        let after = delta.apply_to(&self.content).unwrap();
        let backward = delta.inverse_of(&self.content, after.len());
        let result = delta.duplicate();
        self.content = after;
        self.redos.clear();
        let step = Step { forward: delta, backward };
        let ghost pushed = before.undos.push(step@);
        if self.undos.len() >= HISTORY_LIMIT {
            self.undos.remove(0);
            self.undos.push(step);
            assert(steps_view(self.undos@) =~= pushed.subrange(1, pushed.len() as int));
        } else {
            self.undos.push(step);
            assert(steps_view(self.undos@) =~= pushed);
        }
        assert(steps_view(self.redos@) =~= Seq::empty());
        result
    }

    /// Applies an already resolved delta. Fails with `Merge`, leaving the
    /// document as it was, where the delta does not apply to the content.
    pub fn compose_delta(&mut self, delta: Delta) -> (r: Result<(), DocError>)
        requires
            old(self)@.wf(),
        ensures
            final(self)@.wf(),
            delta@.applies_to(old(self)@.content) ==> r == Ok::<(), DocError>(()) && final(self)@ == old(self)@.record(
                delta@,
            ),
            !delta@.applies_to(old(self)@.content) ==> r == Err::<(), DocError>(DocError::Merge)
                && final(self)@ == old(self)@,
    {
        if delta.base_len != self.content.len() || delta.index > delta.base_len || delta.delete
            > delta.base_len - delta.index {
            return Err(DocError::Merge);
        }
        let _ = self.commit(delta);
        Ok(())
    }

    /// Inserts the bytes of `data` as unstyled cells at `index`, and returns
    /// the delta of the change. `Validation` where `index` is past the end.
    pub fn insert(&mut self, index: usize, data: &Vec<u8>) -> (r: Result<Delta, DocError>)
        requires
            old(self)@.wf(),
        ensures
            final(self)@.wf(),
            index <= old(self)@.content.len() ==> (r matches Ok(d) && d@ == old(self)@.insert_delta(
                index as nat,
                data@,
            ) && final(self)@ == old(self)@.record(d@)),
            index > old(self)@.content.len() ==> r == Err::<Delta, DocError>(DocError::Validation)
                && final(self)@ == old(self)@,
            final(self)@.content.len() == old(self)@.content.len() + (if r is Ok {
                data@.len()
            } else {
                0
            }),
    {
        if index > self.content.len() {
            return Err(DocError::Validation);
        }
        let delta = Delta {
            base_len: self.content.len(),
            index,
            delete: 0,
            insert: plain_cells(data),
        };
        Ok(self.commit(delta))
    }

    /// Removes the cells of `interval`, and returns the delta of the change.
    /// `Validation` where the interval is reversed or runs past the end.
    pub fn delete(&mut self, interval: Interval) -> (r: Result<Delta, DocError>)
        requires
            old(self)@.wf(),
        ensures
            final(self)@.wf(),
            old(self)@.valid_interval(interval) ==> (r matches Ok(d) && d@
                == old(self)@.delete_delta(interval) && final(self)@ == old(self)@.record(d@)),
            !old(self)@.valid_interval(interval) ==> r == Err::<Delta, DocError>(
                DocError::Validation,
            ) && final(self)@ == old(self)@,
            final(self)@.content.len() == old(self)@.content.len() - (if r is Ok {
                interval.end - interval.start
            } else {
                0
            }),
    {
        if interval.start > interval.end || interval.end > self.content.len() {
            return Err(DocError::Validation);
        }
        let delta = Delta {
            base_len: self.content.len(),
            index: interval.start,
            delete: interval.end - interval.start,
            insert: Vec::new(),
        };
        Ok(self.commit(delta))
    }

    /// Applies `attribute` to the cells of `interval`, and returns the delta
    /// of the change. `Validation` where the interval is not in the document.
    pub fn format(&mut self, interval: Interval, attribute: Attribute) -> (r: Result<
        Delta,
        DocError,
    >)
        requires
            old(self)@.wf(),
        ensures
            final(self)@.wf(),
            old(self)@.valid_interval(interval) ==> (r matches Ok(d) && d@
                == old(self)@.format_delta(interval, attribute) && final(self)@
                == old(self)@.record(d@)),
            !old(self)@.valid_interval(interval) ==> r == Err::<Delta, DocError>(
                DocError::Validation,
            ) && final(self)@ == old(self)@,
    {
        if interval.start > interval.end || interval.end > self.content.len() {
            return Err(DocError::Validation);
        }
        let mut cells: Vec<Glyph> = Vec::new();
        let mut i: usize = interval.start;
        while i < interval.end
            invariant
                interval.start <= i <= interval.end <= self.content@.len(),
                cells@ =~= Seq::new(
                    (i - interval.start) as nat,
                    |k: int| styled(self.content@[interval.start + k], attribute),
                ),
            decreases interval.end - i,
        {
            let g = self.content[i];
            let style = if attribute.enabled {
                g.style | attribute.mask
            } else {
                g.style & !attribute.mask
            };
            cells.push(Glyph { ch: g.ch, style });
            i = i + 1;
        }
        let delta = Delta {
            base_len: self.content.len(),
            index: interval.start,
            delete: interval.end - interval.start,
            insert: cells,
        };
        Ok(self.commit(delta))
    }

    /// Puts the bytes of `data`, unstyled, in place of the cells of
    /// `interval`, and returns the delta of the change. `Validation` where the
    /// interval is not in the document.
    pub fn replace(&mut self, interval: Interval, data: &Vec<u8>) -> (r: Result<Delta, DocError>)
        requires
            old(self)@.wf(),
        ensures
            final(self)@.wf(),
            old(self)@.valid_interval(interval) ==> (r matches Ok(d) && d@
                == old(self)@.replace_delta(interval, data@) && final(self)@
                == old(self)@.record(d@)),
            !old(self)@.valid_interval(interval) ==> r == Err::<Delta, DocError>(
                DocError::Validation,
            ) && final(self)@ == old(self)@,
    {
        if interval.start > interval.end || interval.end > self.content.len() {
            return Err(DocError::Validation);
        }
        let delta = Delta {
            base_len: self.content.len(),
            index: interval.start,
            delete: interval.end - interval.start,
            insert: plain_cells(data),
        };
        Ok(self.commit(delta))
    }

    /// Reverts the latest recorded edit and moves it to the redo stack.
    /// `NoHistory` where the undo stack is empty.
    pub fn undo(&mut self) -> (r: Result<(), DocError>)
        requires
            old(self)@.wf(),
        ensures
            final(self)@.wf(),
            old(self)@.undos.len() > 0 ==> r == Ok::<(), DocError>(()) && final(self)@ == old(self)@.undone(),
            old(self)@.undos.len() == 0 ==> r == Err::<(), DocError>(DocError::NoHistory)
                && final(self)@ == old(self)@,
    {
        if self.undos.len() == 0 {
            return Err(DocError::NoHistory);
        }
        proof {
            lemma_undone_wf(self@);
        }
        let ghost before = self@;
        let step = self.undos.pop().unwrap();
        assert(step@ == before.undos.last());
        let back = step.backward.apply_to(&self.content).unwrap();
        self.content = back;
        self.redos.push(step);
        assert(steps_view(self.undos@) =~= before.undos.drop_last());
        assert(steps_view(self.redos@) =~= before.redos.push(step@));
        Ok(())
    }

    /// Reapplies the latest undone edit and moves it back to the undo stack.
    /// `NoHistory` where the redo stack is empty.
    pub fn redo(&mut self) -> (r: Result<(), DocError>)
        requires
            old(self)@.wf(),
        ensures
            final(self)@.wf(),
            old(self)@.redos.len() > 0 ==> r == Ok::<(), DocError>(()) && final(self)@ == old(self)@.redone(),
            old(self)@.redos.len() == 0 ==> r == Err::<(), DocError>(DocError::NoHistory)
                && final(self)@ == old(self)@,
    {
        if self.redos.len() == 0 {
            return Err(DocError::NoHistory);
        }
        proof {
            lemma_redone_wf(self@);
        }
        let ghost before = self@;
        let step = self.redos.pop().unwrap();
        assert(step@ == before.redos.last());
        let next = step.forward.apply_to(&self.content).unwrap();
        self.content = next;
        self.undos.push(step);
        assert(steps_view(self.redos@) =~= before.redos.drop_last());
        assert(steps_view(self.undos@) =~= before.undos.push(step@));
        Ok(())
    }
}

} // verus!
