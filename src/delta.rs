use vstd::prelude::*;

verus! {

/// One cell of a document: a byte of text and its style bits.
#[derive(Clone, Copy, PartialEq, Eq, Structural, Debug)]
pub struct Glyph {
    pub ch: u8,
    pub style: u8,
}

/// An edit against a document of `base_len` cells: keep the first `index`
/// cells, remove the `delete` cells after them and put `insert` in their place.
/// A whole document body is the delta with `base_len`, `index` and `delete` all 0.
#[derive(Debug, PartialEq, Eq)]
pub struct Delta {
    pub base_len: usize,
    pub index: usize,
    pub delete: usize,
    pub insert: Vec<Glyph>,
}

/// Mathematical model of a `Delta`.
pub ghost struct DeltaView {
    pub base_len: nat,
    pub index: nat,
    pub delete: nat,
    pub insert: Seq<Glyph>,
}

impl View for Delta {
    type V = DeltaView;

    open spec fn view(&self) -> DeltaView {
        DeltaView {
            base_len: self.base_len as nat,
            index: self.index as nat,
            delete: self.delete as nat,
            insert: self.insert@,
        }
    }
}

impl DeltaView {
    /// The removed range lies within the base document.
    pub open spec fn fits(self) -> bool {
        self.index + self.delete <= self.base_len
    }

    /// The length of the document that the delta produces.
    pub open spec fn target_len(self) -> int {
        self.base_len - self.delete + self.insert.len()
    }

    pub open spec fn applies_to(self, doc: Seq<Glyph>) -> bool {
        doc.len() == self.base_len && self.fits()
    }

    /// The document that results from applying this delta to `doc`.
    pub open spec fn apply(self, doc: Seq<Glyph>) -> Seq<Glyph> {
        doc.subrange(0, self.index as int) + self.insert + doc.subrange(
            (self.index + self.delete) as int,
            doc.len() as int,
        )
    }

    /// The delta that takes `self.apply(doc)` back to `doc`.
    pub open spec fn inverse(self, doc: Seq<Glyph>) -> DeltaView {
        DeltaView {
            base_len: self.target_len() as nat,
            index: self.index,
            delete: self.insert.len(),
            insert: doc.subrange(self.index as int, (self.index + self.delete) as int),
        }
    }
}

/// Two deltas on one base can be transformed against each other: the bases
/// agree, both fit, and every length involved is a machine size.
pub open spec fn transformable(a: DeltaView, b: DeltaView) -> bool {
    &&& a.base_len == b.base_len
    &&& a.fits()
    &&& b.fits()
    &&& a.target_len() <= usize::MAX
    &&& b.target_len() <= usize::MAX
    &&& a.insert.len() + b.insert.len() <= usize::MAX
}

/// The pair `(a2, b2)` with `a2` to be applied after `b` and `b2` after `a`.
/// Disjoint edits shift past each other; where `a` ends at or before the start
/// of `b`, `a` goes first. Overlapping edits remove the union of their ranges and
/// put the text of `a` followed by the text of `b` in its place.
pub open spec fn transform_spec(a: DeltaView, b: DeltaView) -> (DeltaView, DeltaView) {
    let a_end: int = (a.index + a.delete) as int;
    let b_end: int = (b.index + b.delete) as int;
    if a_end <= b.index {
        (
            DeltaView { base_len: b.target_len() as nat, ..a },
            DeltaView {
                base_len: a.target_len() as nat,
                index: (b.index - a.delete + a.insert.len()) as nat,
                ..b
            },
        )
    } else if b_end <= a.index {
        (
            DeltaView {
                base_len: b.target_len() as nat,
                index: (a.index - b.delete + b.insert.len()) as nat,
                ..a
            },
            DeltaView { base_len: a.target_len() as nat, ..b },
        )
    } else {
        let lo: int = if a.index <= b.index { a.index as int } else { b.index as int };
        let hi: int = if a_end >= b_end { a_end } else { b_end };
        let merged = a.insert + b.insert;
        (
            DeltaView {
                base_len: b.target_len() as nat,
                index: lo as nat,
                delete: (b.index - lo + b.insert.len() + hi - b_end) as nat,
                insert: merged,
            },
            DeltaView {
                base_len: a.target_len() as nat,
                index: lo as nat,
                delete: (a.index - lo + a.insert.len() + hi - a_end) as nat,
                insert: merged,
            },
        )
    }
}

/// Applying a delta and then its inverse gives back the document.
pub proof fn lemma_inverse(d: DeltaView, doc: Seq<Glyph>)
    requires
        d.applies_to(doc),
    ensures
        d.inverse(doc).applies_to(d.apply(doc)),
        d.inverse(doc).apply(d.apply(doc)) == doc,
        d.applies_to(d.inverse(doc).apply(d.apply(doc))),
{
    let after = d.apply(doc);
    let inv = d.inverse(doc);
    assert(after.subrange(0, d.index as int) =~= doc.subrange(0, d.index as int));
    assert(after.subrange((d.index + d.insert.len()) as int, after.len() as int) =~= doc.subrange(
        (d.index + d.delete) as int,
        doc.len() as int,
    ));
    assert(inv.apply(after) =~= doc);
}

proof fn lemma_disjoint(doc: Seq<Glyph>, a: DeltaView, b: DeltaView)
    requires
        a.applies_to(doc),
        b.applies_to(doc),
        transformable(a, b),
        a.index + a.delete <= b.index,
    ensures
        transform_spec(a, b).1.applies_to(a.apply(doc)),
        transform_spec(a, b).0.applies_to(b.apply(doc)),
        transform_spec(a, b).1.apply(a.apply(doc)) == transform_spec(a, b).0.apply(b.apply(doc)),
{
    let (a2, b2) = transform_spec(a, b);
    let da = a.apply(doc);
    let db = b.apply(doc);
    let a0 = a.index as int;
    let a1 = (a.index + a.delete) as int;
    let b0 = b.index as int;
    let b1 = (b.index + b.delete) as int;
    let n = doc.len() as int;
    let k = b2.index as int;
    let whole = doc.subrange(0, a0) + a.insert + doc.subrange(a1, b0) + b.insert + doc.subrange(b1, n);
    assert(da.subrange(0, k) =~= doc.subrange(0, a0) + a.insert + doc.subrange(a1, b0));
    assert(da.subrange(k + b.delete, da.len() as int) =~= doc.subrange(b1, n));
    assert(b2.apply(da) =~= whole);
    assert(db.subrange(0, a0) =~= doc.subrange(0, a0));
    assert(db.subrange(a1, db.len() as int) =~= doc.subrange(a1, b0) + b.insert + doc.subrange(b1, n));
    assert(a2.apply(db) =~= whole);
}

proof fn lemma_overlap(doc: Seq<Glyph>, a: DeltaView, b: DeltaView)
    requires
        a.applies_to(doc),
        b.applies_to(doc),
        transformable(a, b),
        b.index < a.index + a.delete,
        a.index < b.index + b.delete,
    ensures
        transform_spec(a, b).1.applies_to(a.apply(doc)),
        transform_spec(a, b).0.applies_to(b.apply(doc)),
        transform_spec(a, b).1.apply(a.apply(doc)) == transform_spec(a, b).0.apply(b.apply(doc)),
{
    let (a2, b2) = transform_spec(a, b);
    let da = a.apply(doc);
    let db = b.apply(doc);
    let a0 = a.index as int;
    let a1 = (a.index + a.delete) as int;
    let b0 = b.index as int;
    let b1 = (b.index + b.delete) as int;
    let n = doc.len() as int;
    let lo: int = if a0 <= b0 { a0 } else { b0 };
    let hi: int = if a1 >= b1 { a1 } else { b1 };
    let whole = doc.subrange(0, lo) + (a.insert + b.insert) + doc.subrange(hi, n);
    assert(da.subrange(0, lo) =~= doc.subrange(0, lo));
    assert(da.subrange(lo + b2.delete, da.len() as int) =~= doc.subrange(hi, n));
    assert(b2.apply(da) =~= whole);
    assert(db.subrange(0, lo) =~= doc.subrange(0, lo));
    assert(db.subrange(lo + a2.delete, db.len() as int) =~= doc.subrange(hi, n));
    assert(a2.apply(db) =~= whole);
}

/// Convergence: for two deltas on one document, applying `a` then the
/// transformed `b`, or `b` then the transformed `a`, gives the same document.
pub proof fn lemma_transform_converges(doc: Seq<Glyph>, a: DeltaView, b: DeltaView)
    requires
        a.applies_to(doc),
        b.applies_to(doc),
        transformable(a, b),
    ensures
        transform_spec(a, b).1.applies_to(a.apply(doc)),
        transform_spec(a, b).0.applies_to(b.apply(doc)),
        transform_spec(a, b).1.apply(a.apply(doc)) == transform_spec(a, b).0.apply(b.apply(doc)),
{
    if a.index + a.delete <= b.index {
        lemma_disjoint(doc, a, b);
    } else if b.index + b.delete <= a.index {
        lemma_disjoint(doc, b, a);
    } else {
        lemma_overlap(doc, a, b);
    }
}

/// Appends `src[from..to]` to `out`.
pub fn push_range(out: &mut Vec<Glyph>, src: &Vec<Glyph>, from: usize, to: usize)
    requires
        from <= to <= src@.len(),
    ensures
        final(out)@ == old(out)@ + src@.subrange(from as int, to as int),
{
    let mut i: usize = from;
    while i < to
        invariant
            from <= i <= to <= src@.len(),
            out@ == old(out)@ + src@.subrange(from as int, i as int),
        decreases to - i,
    {
        out.push(src[i]);
        assert(src@.subrange(from as int, i + 1) =~= src@.subrange(from as int, i as int).push(src@[i as int]));
        i = i + 1;
    }
}

impl Delta {
    /// A copy of this delta.
    pub fn duplicate(&self) -> (r: Delta)
        ensures
            r@ == self@,
    {
        let mut insert: Vec<Glyph> = Vec::new();
        push_range(&mut insert, &self.insert, 0, self.insert.len());
        assert(self.insert@.subrange(0, self.insert@.len() as int) =~= self.insert@);
        Delta { base_len: self.base_len, index: self.index, delete: self.delete, insert }
    }

    /// The delta that describes the whole of `doc` as a body.
    pub fn body_of(doc: &Vec<Glyph>) -> (r: Delta)
        ensures
            r@.base_len == 0,
            r@.index == 0,
            r@.delete == 0,
            r@.insert == doc@,
    {
        let mut insert: Vec<Glyph> = Vec::new();
        push_range(&mut insert, doc, 0, doc.len());
        assert(doc@.subrange(0, doc@.len() as int) =~= doc@);
        Delta { base_len: 0, index: 0, delete: 0, insert }
    }

    /// Applies the delta to `doc`; `None` where it does not apply.
    pub fn apply_to(&self, doc: &Vec<Glyph>) -> (r: Option<Vec<Glyph>>)
        ensures
            r is Some <==> self@.applies_to(doc@),
            r matches Some(out) ==> out@ == self@.apply(doc@),
    {
        if doc.len() != self.base_len || self.index > self.base_len || self.delete > self.base_len
            - self.index {
            return None;
        }
        let mut out: Vec<Glyph> = Vec::new();
        push_range(&mut out, doc, 0, self.index);
        push_range(&mut out, &self.insert, 0, self.insert.len());
        push_range(&mut out, doc, self.index + self.delete, doc.len());
        assert(self.insert@.subrange(0, self.insert@.len() as int) =~= self.insert@);
        Some(out)
    }

    /// The inverse of this delta on `before`, where the result of applying it
    /// has `after_len` cells.
    pub fn inverse_of(&self, before: &Vec<Glyph>, after_len: usize) -> (r: Delta)
        requires
            self@.applies_to(before@),
            after_len == self@.target_len(),
        ensures
            r@ == self@.inverse(before@),
    {
        let mut insert: Vec<Glyph> = Vec::new();
        push_range(&mut insert, before, self.index, self.index + self.delete);
        Delta { base_len: after_len, index: self.index, delete: self.insert.len(), insert }
    }

    /// Transforms `self` and `other`, two deltas on one base, against each
    /// other: the result `(a2, b2)` has `a2` to apply after `other` and `b2`
    /// after `self`. `None` where they are not on one base or do not fit it.
    pub fn transform(&self, other: &Delta) -> (r: Option<(Delta, Delta)>)
        ensures
            r is Some <==> transformable(self@, other@),
            r matches Some(p) ==> (p.0@, p.1@) == transform_spec(self@, other@),
    {
        let a = self;
        let b = other;
        if a.base_len != b.base_len || a.index > a.base_len || a.delete > a.base_len - a.index
            || b.index > b.base_len || b.delete > b.base_len - b.index {
            return None;
        }
        let a_rest = a.base_len - a.delete;
        let b_rest = b.base_len - b.delete;
        if a.insert.len() > usize::MAX - a_rest || b.insert.len() > usize::MAX - b_rest
            || a.insert.len() > usize::MAX - b.insert.len() {
            return None;
        }
        let a_target = a_rest + a.insert.len();
        let b_target = b_rest + b.insert.len();
        let a_end = a.index + a.delete;
        let b_end = b.index + b.delete;
        if a_end <= b.index {
            let mut a2 = a.duplicate();
            a2.base_len = b_target;
            let mut b2 = b.duplicate();
            b2.base_len = a_target;
            b2.index = b.index - a.delete + a.insert.len();
            Some((a2, b2))
        } else if b_end <= a.index {
            let mut a2 = a.duplicate();
            a2.base_len = b_target;
            a2.index = a.index - b.delete + b.insert.len();
            let mut b2 = b.duplicate();
            b2.base_len = a_target;
            Some((a2, b2))
        } else {
            let lo = if a.index <= b.index { a.index } else { b.index };
            let hi = if a_end >= b_end { a_end } else { b_end };
            let mut merged: Vec<Glyph> = Vec::new();
            push_range(&mut merged, &a.insert, 0, a.insert.len());
            push_range(&mut merged, &b.insert, 0, b.insert.len());
            assert(a.insert@.subrange(0, a.insert@.len() as int) =~= a.insert@);
            assert(b.insert@.subrange(0, b.insert@.len() as int) =~= b.insert@);
            let mut merged2: Vec<Glyph> = Vec::new();
            push_range(&mut merged2, &merged, 0, merged.len());
            assert(merged@.subrange(0, merged@.len() as int) =~= merged@);
            let a2 = Delta {
                base_len: b_target,
                index: lo,
                delete: (b.index - lo) + b.insert.len() + (hi - b_end),
                insert: merged,
            };
            let b2 = Delta {
                base_len: a_target,
                index: lo,
                delete: (a.index - lo) + a.insert.len() + (hi - a_end),
                insert: merged2,
            };
            Some((a2, b2))
        }
    }
}

} // verus!
