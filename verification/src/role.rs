use vstd::prelude::*;

verus! {

/// The role an identifier plays for the duration of one run.
/// Roles are mutually exclusive per identifier within one run.
#[derive(Clone, Copy, Debug, PartialEq, Eq, Structural)]
pub enum Role {
    /// Holds the original value from which a borrow is taken.
    Owner,
    /// An immutable reference / shared borrow.
    StaticRef,
    /// A mutable reference / exclusive borrow.
    MutRef,
    /// A call target, synthesized as a placeholder for the enclosing call site.
    Function,
}

/// The textual tag under which a role is serialized for the renderer.
pub open spec fn role_tag(r: Role) -> Seq<char> {
    match r {
        Role::Owner => "Owner"@,
        Role::StaticRef => "StaticRef"@,
        Role::MutRef => "MutRef"@,
        Role::Function => "Function"@,
    }
}

/// The textual tag of a role, as the renderer expects it.
pub fn role_name(r: Role) -> (s: &'static str)
    ensures
        s@ == role_tag(r),
{
    match r {
        Role::Owner => "Owner",
        Role::StaticRef => "StaticRef",
        Role::MutRef => "MutRef",
        Role::Function => "Function",
    }
}

} // verus!
