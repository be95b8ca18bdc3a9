//! The canonical form that interning gives a record type, decided from the
//! record's kind and the roles of its fields.
use vstd::prelude::*;
use vstd::string::*;

use crate::store::{after_insert, after_inserts, distinct, law_dedup};

verus! {

/// How a field of a record is held by the record's canonical form.
#[derive(Clone, Copy, Debug, PartialEq, Eq, Structural)]
pub enum FieldRole {
    /// Interned on its own: the canonical form holds a handle to it.
    Interned,
    /// Not deduplicated on its own: the canonical form refers to it in place.
    Opaque,
}

/// What kind of type a record declaration introduces.
#[derive(Clone, Copy, Debug, PartialEq, Eq, Structural)]
pub enum RecordKind {
    Struct,
    Enum,
    Union,
}

/// One field of a record declaration.
#[derive(Clone, Copy, Debug, PartialEq, Eq, Structural)]
pub struct FieldDecl {
    /// Whether the field has a name (as opposed to a tuple position).
    pub named: bool,
    pub role: FieldRole,
}

/// Why a record declaration cannot be interned field by field.
#[derive(Clone, Copy, Debug, PartialEq, Eq, Structural)]
pub enum ShapeError {
    /// A sum type: its values have no fixed set of named fields.
    SumType,
    /// A union: its fields overlap.
    Union,
    /// A field without a name.
    UnnamedField,
    /// A record without fields.
    NoFields,
}

/// The canonical form of a record type.
#[derive(Clone, Copy, Debug, PartialEq, Eq, Structural)]
pub enum CanonicalForm {
    /// The type is its own canonical form, interned as a whole.
    Itself,
    /// A companion type in which each interned field is a handle and each
    /// opaque field a reference into the canonical instance.
    Shadow,
}

pub open spec fn has_unnamed(fields: Seq<FieldDecl>) -> bool {
    exists|k: int| 0 <= k < fields.len() && !(#[trigger] fields[k]).named
}

pub open spec fn has_interned(fields: Seq<FieldDecl>) -> bool {
    exists|k: int| 0 <= k < fields.len() && (#[trigger] fields[k]).role == FieldRole::Interned
}

/// The canonical form of a record of kind `kind` with fields `fields`, or
/// why it has none.
pub open spec fn canonical_form_of(kind: RecordKind, fields: Seq<FieldDecl>) -> Result<
    CanonicalForm,
    ShapeError,
> {
    match kind {
        RecordKind::Enum => Err(ShapeError::SumType),
        RecordKind::Union => Err(ShapeError::Union),
        RecordKind::Struct => if fields.len() == 0 {
            Err(ShapeError::NoFields)
        } else if has_unnamed(fields) {
            Err(ShapeError::UnnamedField)
        } else if has_interned(fields) {
            Ok(CanonicalForm::Shadow)
        } else {
            Ok(CanonicalForm::Itself)
        },
    }
}

/// Decides the canonical form of a record declaration: a shadow type when
/// at least one field is interned, the type itself when none is; sum types,
/// unions, unnamed fields and records without fields are refused.
pub fn canonical_form(kind: RecordKind, fields: &Vec<FieldDecl>) -> (r: Result<
    CanonicalForm,
    ShapeError,
>)
    ensures
        r == canonical_form_of(kind, fields@),
{
    match kind {
        RecordKind::Enum => {
            return Err(ShapeError::SumType);
        },
        RecordKind::Union => {
            return Err(ShapeError::Union);
        },
        RecordKind::Struct => {},
    }
    let n = fields.len();
    if n == 0 {
        return Err(ShapeError::NoFields);
    }
    let mut any_interned = false;
    let mut i: usize = 0;
    while i < n
        invariant
            kind == RecordKind::Struct,
            n == fields@.len(),
            i <= n,
            forall|k: int| 0 <= k < i ==> (#[trigger] fields@[k]).named,
            any_interned == exists|k: int|
                0 <= k < i && (#[trigger] fields@[k]).role == FieldRole::Interned,
        decreases n - i,
    {
        let f = fields[i];
        if !f.named {
            assert(!fields@[i as int].named);
            return Err(ShapeError::UnnamedField);
        }
        if f.role == FieldRole::Interned {
            any_interned = true;
        }
        i = i + 1;
    }
    if any_interned {
        Ok(CanonicalForm::Shadow)
    } else {
        Ok(CanonicalForm::Itself)
    }
}

/// Two composites whose interned field `F` has equal contents hold the same
/// canonical instance for `F`, whatever else is interned in between: the
/// position `i` that `F`'s store gave the first composite's field equals
/// the position `j` it gave the second one's.
pub proof fn law_shared_field<V>(s: Seq<V>, f1: V, i: int, between: Seq<V>, f2: V, j: int)
    requires
        distinct(s),
        f1 == f2,
        0 <= i < after_insert(s, f1).len(),
        after_insert(s, f1)[i] == f1,
        0 <= j < after_insert(after_inserts(after_insert(s, f1), between), f2).len(),
        after_insert(after_inserts(after_insert(s, f1), between), f2)[j] == f2,
    ensures
        i == j,
{
    law_dedup(s, f1, i, between, f2, j);
}

/// The name of the shadow type of a record named `name`.
pub open spec fn shadow_name_of(name: Seq<char>) -> Seq<char> {
    "Interned"@ + name
}

/// The name of the shadow type of the record named `name`.
pub fn shadow_name(name: &str) -> (r: String)
    ensures
        r@ == shadow_name_of(name@),
{
    let mut r = String::from_str("Interned");
    r.append(name);
    r
}

} // verus!
