//! Handles to canonical instances, and the capability of interning a value.
use vstd::prelude::*;

use crate::content::Content;
use crate::promote::promote;

verus! {

/// A non-owning handle to a canonical instance. Two handles are equal when
/// they refer to the same instance, which for canonical instances is the
/// same as having equal contents.
#[derive(Debug, PartialOrd, Ord)]
pub struct Interned<T: ?Sized + 'static>(&'static T);

impl<T: ?Sized> Interned<T> {
    /// The canonical instance this handle refers to.
    pub closed spec fn target(self) -> &'static T {
        self.0
    }

    /// A handle to `canonical`, which must be an instance that an arena
    /// returned.
    pub fn new(canonical: &'static T) -> (h: Self)
        ensures
            h.target() == canonical,
    {
        Interned(canonical)
    }

    /// The canonical instance this handle refers to.
    pub fn get(&self) -> (r: &'static T)
        ensures
            r == self.target(),
    {
        self.0
    }
}

impl<T: ?Sized> PartialEq for Interned<T> {
    /// Relies on `std::ptr::eq`: compares the addresses of the two instances.
    #[verifier::external_body]
    fn eq(&self, other: &Self) -> bool {
        std::ptr::eq(self.0, other.0)
    }
}

impl<T: ?Sized> Eq for Interned<T> {
}

impl<T: ?Sized> std::hash::Hash for Interned<T> {
    /// Relies on `std::ptr::hash`: hashes the instance's address, never its
    /// content, in agreement with `eq`.
    #[verifier::external_body]
    fn hash<H: std::hash::Hasher>(&self, state: &mut H) {
        std::ptr::hash(self.0, state)
    }
}

impl<T: ?Sized> std::ops::Deref for Interned<T> {
    type Target = T;

    fn deref(&self) -> (r: &T)
        ensures
            r == self.target(),
    {
        self.0
    }
}

impl<T: ?Sized + View> View for Interned<T> {
    type V = T::V;

    /// The content of the canonical instance.
    closed spec fn view(&self) -> T::V {
        self.0@
    }
}

/// Handles compare by the contents of their instances. Within one arena,
/// canonical instances have equal contents exactly when they are the same
/// instance, so this agrees with `==` on handles from one arena.
impl<T: ?Sized + Content> Content for Interned<T> {
    open spec fn digest_of(v: T::V) -> u64 {
        T::digest_of(v)
    }

    fn digest(&self) -> (d: u64) {
        self.0.digest()
    }

    fn same_content(&self, other: &Self) -> (r: bool) {
        self.0.same_content(other.0)
    }
}

/// The capability of turning a value into a handle to its canonical form.
pub trait Intern {
    /// The type of the canonical form; for most types `Self` itself.
    type InternedType: ?Sized + View;

    /// The content of the canonical form of `self`.
    spec fn canonical_view(&self) -> <Self::InternedType as View>::V;

    /// Interns a value that lives for the rest of the process: the handle
    /// refers to an instance whose content is `self`'s canonical form.
    fn intern(&'static self) -> (r: Interned<Self::InternedType>)
        ensures
            r@ == self.canonical_view(),
    ;

    /// Promotes `self` to process lifetime, then interns it.
    fn intern_owned(self) -> (r: Interned<Self::InternedType>) where Self: Sized + 'static
        ensures
            r@ == self.canonical_view(),
    {
        promote(self).intern()
    }
}

/// A reference interns as its referent does.
impl<T: ?Sized + Intern> Intern for &'static T {
    type InternedType = T::InternedType;

    open spec fn canonical_view(&self) -> <T::InternedType as View>::V {
        (**self).canonical_view()
    }

    fn intern(&'static self) -> (r: Interned<Self::InternedType>) {
        T::intern(*self)
    }
}

/// A handle is already canonical: interning it gives a handle to the same
/// instance.
impl<T: ?Sized + View> Intern for Interned<T> {
    type InternedType = T;

    open spec fn canonical_view(&self) -> T::V {
        self@
    }

    fn intern(&'static self) -> (r: Interned<T>) {
        Interned(self.0)
    }
}

} // verus!
