//! Picker identifiers and the capability every picker offers.

pub mod apps;

use vstd::prelude::*;
use crate::config::ConfigLoad;

verus! {

/// Identifies a picker. `NoPicker` is the sentinel for "no picker is active";
/// every other variant is a real kind with an entry in the registry.
#[derive(PartialEq, Eq, Structural, Clone, Copy, Debug)]
pub enum PickerKind {
    Apps,
    NoPicker,
}

/// Number of real picker kinds, which is also the index of the sentinel.
pub const KIND_COUNT: u8 = 1;

/// A self-contained view that the window can show. The daemon holds one
/// picker per real kind and drives it through these methods; what each does
/// to the picker is stated by the picker's own `*_post` relation. A picker
/// never changes its kind.
pub trait Picker: Sized {
    /// The kind this picker is registered under.
    spec fn kind_spec(&self) -> PickerKind;

    /// Relates a picker before and after `load` with the configuration
    /// handed in and the answer given. A picker that states nothing allows
    /// every change.
    open spec fn load_post(before: Self, config: ConfigLoad, after: Self, ready: bool) -> bool {
        true
    }

    /// Relates a picker before and after `show` with the previously active
    /// kind and the answer given.
    open spec fn show_post(before: Self, previous: PickerKind, after: Self, switched: bool) -> bool {
        true
    }

    /// Relates a picker before and after `reload` with the configuration
    /// handed in.
    open spec fn reload_post(before: Self, config: ConfigLoad, after: Self) -> bool {
        true
    }

    /// Takes the configuration for the first time. Answers whether the
    /// picker is ready to be shown.
    fn load(&mut self, config: &ConfigLoad) -> (ready: bool)
        ensures
            Self::load_post(*old(self), *config, *final(self), ready),
            final(self).kind_spec() == old(self).kind_spec(),
    ;

    /// Prepares the picker for being shown; `previous` is the kind that was
    /// active before. Answers whether the picker had to be switched in.
    fn show(&mut self, previous: PickerKind) -> (switched: bool)
        ensures
            Self::show_post(*old(self), previous, *final(self), switched),
            final(self).kind_spec() == old(self).kind_spec(),
    ;

    /// The kind this picker is registered under.
    fn kind(&self) -> (kind: PickerKind)
        ensures
            kind == self.kind_spec(),
    ;

    /// Takes a new configuration, whether the picker is shown or not.
    fn reload(&mut self, config: &ConfigLoad)
        ensures
            Self::reload_post(*old(self), *config, *final(self)),
            final(self).kind_spec() == old(self).kind_spec(),
    ;
}

impl PickerKind {
    /// Whether this is a real kind rather than the sentinel.
    pub open spec fn is_real(self) -> bool {
        self != PickerKind::NoPicker
    }

    /// Position of the kind in the registry; the sentinel comes last.
    pub open spec fn index_spec(self) -> int {
        match self {
            PickerKind::Apps => 0,
            PickerKind::NoPicker => 1,
        }
    }

    /// The real kinds, in registry order.
    pub open spec fn all() -> Seq<PickerKind> {
        seq![PickerKind::Apps]
    }

    /// All real kinds in a stable order: the kind at position `i` has index `i`.
    pub fn variants() -> (kinds: [Self; 1])
        ensures
            kinds@ == Self::all(),
    {
        let kinds = [PickerKind::Apps];
        assert(kinds@ =~= Self::all());
        kinds
    }

    /// The kind's dense index, usable as a registry position and as the
    /// argument byte of a frame.
    pub fn index(self) -> (i: u8)
        ensures
            i == self.index_spec(),
            self.is_real() <==> i < KIND_COUNT,
    {
        match self {
            PickerKind::Apps => 0,
            PickerKind::NoPicker => 1,
        }
    }

    /// The kind with the given index, if there is one.
    pub fn from_index(i: u8) -> (kind: Option<PickerKind>)
        ensures
            match kind {
                Some(k) => k.index_spec() == i,
                None => forall|k: PickerKind| k.index_spec() != i,
            },
    {
        if i == 0 {
            Some(PickerKind::Apps)
        } else if i == 1 {
            Some(PickerKind::NoPicker)
        } else {
            None
        }
    }
}

/// The real kinds are exactly those listed by `all`, each at its own index.
pub proof fn lemma_all_kinds_indexed(k: PickerKind)
    ensures
        k.is_real() <==> (0 <= k.index_spec() < PickerKind::all().len()),
        k.is_real() ==> PickerKind::all()[k.index_spec()] == k,
        PickerKind::all().len() == KIND_COUNT,
{
}

} // verus!
