use vstd::prelude::*;

use crate::addresses::{Size, Vram};
use crate::collections::addended_ordered_map::SizedValue;

verus! {

/// A kind of label that knows which of two detected kinds should win.
pub trait LabelPrecedence: Copy {
    /// Whether `new`, detected later, replaces `self`.
    fn does_new_takes_precedence(&self, new: Self) -> bool;
}

/// A label the analysis found (or the user declared), with the addresses that refer to it.
#[derive(Debug, Clone)]
pub struct ReferencedLabel<L: LabelPrecedence> {
    user_declared: bool,
    vram: Vram,
    autodetected_type: L,
    referenced_by: Vec<Vram>,
    user_declared_type: Option<L>,
}

impl<L: LabelPrecedence> ReferencedLabel<L> {
    pub closed spec fn spec_user_declared(&self) -> bool {
        self.user_declared
    }

    pub closed spec fn spec_vram(&self) -> Vram {
        self.vram
    }

    pub closed spec fn spec_autodetected_type(&self) -> L {
        self.autodetected_type
    }

    pub closed spec fn spec_referenced_by(&self) -> Seq<Vram> {
        self.referenced_by@
    }

    pub closed spec fn spec_user_declared_type(&self) -> Option<L> {
        self.user_declared_type
    }

    /// A label found by the analysis, referenced by nothing yet.
    pub fn new(vram: Vram, label_type: L) -> (r: Self)
        ensures
            !r.spec_user_declared(),
            r.spec_vram() == vram,
            r.spec_autodetected_type() == label_type,
            r.spec_referenced_by() == Seq::<Vram>::empty(),
            r.spec_user_declared_type() is None,
    {
        ReferencedLabel {
            user_declared: false,
            vram,
            autodetected_type: label_type,
            referenced_by: Vec::new(),
            user_declared_type: None,
        }
    }

    /// A label the user declared.
    pub fn new_user_declared(vram: Vram, label_type: L) -> (r: Self)
        ensures
            r.spec_user_declared(),
            r.spec_vram() == vram,
            r.spec_autodetected_type() == label_type,
            r.spec_referenced_by() == Seq::<Vram>::empty(),
            r.spec_user_declared_type() == Some(label_type),
    {
        ReferencedLabel {
            user_declared: true,
            user_declared_type: Some(label_type),
            ..Self::new(vram, label_type)
        }
    }

    pub fn vram(&self) -> (r: Vram)
        ensures
            r == self.spec_vram(),
    {
        self.vram
    }

    pub fn user_declared(&self) -> (r: bool)
        ensures
            r == self.spec_user_declared(),
    {
        self.user_declared
    }

    pub fn referenced_by(&self) -> (r: &[Vram])
        ensures
            r@ == self.spec_referenced_by(),
    {
        self.referenced_by.as_slice()
    }

    /// The declared kind if the user gave one, the detected kind otherwise.
    pub fn label_type(&self) -> (r: L)
        ensures
            r == match self.spec_user_declared_type() {
                Some(t) => t,
                None => self.spec_autodetected_type(),
            },
    {
        match self.user_declared_type {
            Some(t) => t,
            None => self.autodetected_type,
        }
    }

    /// How many references to the label were found.
    pub fn reference_counter(&self) -> (r: usize)
        ensures
            r == self.spec_referenced_by().len(),
    {
        self.referenced_by.len()
    }

    pub fn add_referenced_by(&mut self, specific_address: Vram)
        ensures
            final(self).spec_referenced_by() == old(self).spec_referenced_by().push(specific_address),
            final(self).spec_vram() == old(self).spec_vram(),
            final(self).spec_user_declared() == old(self).spec_user_declared(),
            final(self).spec_autodetected_type() == old(self).spec_autodetected_type(),
            final(self).spec_user_declared_type() == old(self).spec_user_declared_type(),
    {
        self.referenced_by.push(specific_address);
    }

    /// Records a newly detected kind, which replaces the current one only if it takes
    /// precedence over it.
    pub fn set_autodetected_type(&mut self, new_type: L)
        ensures
            exists|b: bool|
                call_ensures(L::does_new_takes_precedence, (&old(self).spec_autodetected_type(), new_type), b)
                && final(self).spec_autodetected_type() == if b { new_type } else { old(self).spec_autodetected_type() },
            final(self).spec_referenced_by() == old(self).spec_referenced_by(),
            final(self).spec_vram() == old(self).spec_vram(),
            final(self).spec_user_declared() == old(self).spec_user_declared(),
            final(self).spec_user_declared_type() == old(self).spec_user_declared_type(),
    {
        if self.autodetected_type.does_new_takes_precedence(new_type) {
            self.autodetected_type = new_type;
        }
    }
}

/// A label marks a single address.
impl<L: LabelPrecedence> SizedValue for ReferencedLabel<L> {
    open spec fn spec_size(&self) -> nat {
        1
    }

    fn size(&self) -> (r: Size) {
        Size::new(1)
    }
}

/// The kind a label reports: the declared kind if the user gave one, the detected kind otherwise.
pub open spec fn spec_label_type<L: LabelPrecedence>(l: ReferencedLabel<L>) -> L {
    match l.spec_user_declared_type() {
        Some(t) => t,
        None => l.spec_autodetected_type(),
    }
}

/// What a call of [`ReferencedLabel::add_referenced_by`] with `address` guarantees of the label
/// before and after it.
pub open spec fn spec_added_reference<L: LabelPrecedence>(
    before: ReferencedLabel<L>,
    after: ReferencedLabel<L>,
    address: Vram,
) -> bool {
    &&& after.spec_referenced_by() == before.spec_referenced_by().push(address)
    &&& after.spec_vram() == before.spec_vram()
    &&& after.spec_user_declared() == before.spec_user_declared()
    &&& after.spec_autodetected_type() == before.spec_autodetected_type()
    &&& after.spec_user_declared_type() == before.spec_user_declared_type()
}

/// What a call of [`ReferencedLabel::set_autodetected_type`] guarantees whatever kind it was
/// given: only the detected kind may change.
pub open spec fn spec_detected_kind_set<L: LabelPrecedence>(before: ReferencedLabel<L>, after: ReferencedLabel<L>) -> bool {
    &&& after.spec_referenced_by() == before.spec_referenced_by()
    &&& after.spec_vram() == before.spec_vram()
    &&& after.spec_user_declared() == before.spec_user_declared()
    &&& after.spec_user_declared_type() == before.spec_user_declared_type()
}

/// What one call of either `add_referenced_by` or `set_autodetected_type` guarantees.
pub open spec fn spec_label_step<L: LabelPrecedence>(before: ReferencedLabel<L>, after: ReferencedLabel<L>) -> bool {
    spec_detected_kind_set(before, after) || exists|a: Vram| #[trigger] spec_added_reference(before, after, a)
}

/// A kind the user declared is never overridden: after any sequence of calls of
/// `add_referenced_by` and `set_autodetected_type` on a label made by `new_user_declared` with
/// kind `t`, the label is still user declared and reports `t`.
pub proof fn lemma_user_declared_type_kept<L: LabelPrecedence>(labels: Seq<ReferencedLabel<L>>, t: L)
    requires
        labels.len() >= 1,
        labels[0].spec_user_declared(),
        labels[0].spec_user_declared_type() == Some(t),
        forall|i: int| 0 <= i < labels.len() - 1 ==> spec_label_step(labels[i], #[trigger] labels[i + 1]),
    ensures
        labels.last().spec_user_declared(),
        labels.last().spec_user_declared_type() == Some(t),
        spec_label_type(labels.last()) == t,
    decreases labels.len(),
{
    if labels.len() > 1 {
        let prefix = labels.drop_last();
        assert forall|i: int| 0 <= i < prefix.len() - 1 implies spec_label_step(prefix[i], #[trigger] prefix[i + 1]) by {
            assert(prefix[i + 1] == labels[i + 1]);
        }
        lemma_user_declared_type_kept(prefix, t);
        let i = labels.len() - 2;
        assert(labels[i + 1] == labels.last());
        assert(spec_label_step(labels[i], labels[i + 1]));
    }
}

/// The references are kept in order, duplicates included: after `add_referenced_by` with
/// `a1, ..., an`, the label's references are the ones it had followed by `a1, ..., an`, and its
/// reference counter grew by `n`.
pub proof fn lemma_references_in_order<L: LabelPrecedence>(labels: Seq<ReferencedLabel<L>>, addresses: Seq<Vram>)
    requires
        labels.len() == addresses.len() + 1,
        forall|i: int| 0 <= i < addresses.len() ==> spec_added_reference(labels[i], #[trigger] labels[i + 1], addresses[i]),
    ensures
        labels.last().spec_referenced_by() == labels[0].spec_referenced_by() + addresses,
        labels.last().spec_referenced_by().len() == labels[0].spec_referenced_by().len() + addresses.len(),
    decreases addresses.len(),
{
    if addresses.len() > 0 {
        let prefix = labels.drop_last();
        let addrs = addresses.drop_last();
        assert forall|i: int| 0 <= i < addrs.len() implies spec_added_reference(prefix[i], #[trigger] prefix[i + 1], addrs[i]) by {
            assert(prefix[i + 1] == labels[i + 1]);
        }
        lemma_references_in_order(prefix, addrs);
        let i = addresses.len() - 1;
        assert(spec_added_reference(labels[i], labels[i + 1], addresses[i]));
        assert(labels[i + 1] == labels.last());
        assert(labels[0].spec_referenced_by() + addresses =~= (labels[0].spec_referenced_by() + addrs).push(addresses[i]));
    }
}

} // verus!
