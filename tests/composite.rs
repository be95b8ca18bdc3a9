use treentern::arena::SharedArena;
use treentern::composite::{
    canonical_form, shadow_name, CanonicalForm, FieldDecl, FieldRole, RecordKind, ShapeError,
};
use treentern::Interned;

type InternedUser = (Interned<String>, Interned<String>);

fn intern_user(
    names: &'static SharedArena<String>,
    users: &'static SharedArena<InternedUser>,
    first: &str,
    last: &str,
) -> &'static InternedUser {
    let first = Interned::new(names.insert_owned(first.to_string()));
    let last = Interned::new(names.insert_owned(last.to_string()));
    users.insert_owned((first, last))
}

#[test]
fn composite_fields_share_canonical_instances() {
    let names: &'static SharedArena<String> = Box::leak(Box::new(SharedArena::new()));
    let users: &'static SharedArena<InternedUser> = Box::leak(Box::new(SharedArena::new()));

    let a = intern_user(names, users, "Charlie", "Cayne");
    let b = intern_user(names, users, "Charlie", "Dwayne");
    let c = intern_user(names, users, "Dwayne", "Johnson");
    let d = intern_user(names, users, "Charlie", "Cayne");

    assert!(std::ptr::eq(a, d));
    assert!(!std::ptr::eq(a, b));
    assert!(!std::ptr::eq(b, c));
    assert!(!std::ptr::eq(a, c));
    assert_eq!(a, d);
    assert_ne!(a, b);

    assert_eq!(a.0.as_ptr(), b.0.as_ptr());
    assert_eq!(b.1.as_ptr(), c.0.as_ptr());
}

fn named(role: FieldRole) -> FieldDecl {
    FieldDecl { named: true, role }
}

#[test]
fn form_with_an_interned_field_is_a_shadow() {
    let fields = vec![named(FieldRole::Interned), named(FieldRole::Opaque)];
    assert_eq!(canonical_form(RecordKind::Struct, &fields), Ok(CanonicalForm::Shadow));
}

#[test]
fn form_without_interned_fields_is_the_type_itself() {
    let fields = vec![named(FieldRole::Opaque), named(FieldRole::Opaque)];
    assert_eq!(canonical_form(RecordKind::Struct, &fields), Ok(CanonicalForm::Itself));
}

#[test]
fn form_refuses_unsupported_shapes() {
    let fields = vec![named(FieldRole::Interned)];
    assert_eq!(canonical_form(RecordKind::Enum, &fields), Err(ShapeError::SumType));
    assert_eq!(canonical_form(RecordKind::Union, &fields), Err(ShapeError::Union));
    assert_eq!(canonical_form(RecordKind::Struct, &vec![]), Err(ShapeError::NoFields));
    let tuple = vec![named(FieldRole::Interned), FieldDecl { named: false, role: FieldRole::Opaque }];
    assert_eq!(canonical_form(RecordKind::Struct, &tuple), Err(ShapeError::UnnamedField));
}

#[test]
fn shadow_type_name_is_prefixed() {
    assert_eq!(shadow_name("User"), "InternedUser");
    assert_eq!(shadow_name(""), "Interned");
}
