//! Heuristics over the syntactic surface of structs and functions: attribute
//! token text, type text and identifiers.
use vstd::prelude::*;
use crate::ast::{Attribute, Field, FnItem, StructItem};
use crate::scan::{block_has_unsafe, block_uses_unsafe};
use crate::division::{block_has_unsafe_division, block_divides_unsafely};
use crate::text::{contains, text_contains, text_eq};

verus! {

/// Some attribute of the form `path(...)` has `word` in its token text.
pub open spec fn attrs_have(attrs: Seq<Attribute>, path: Seq<char>, word: Seq<char>) -> bool {
    exists|i: int|
        0 <= i < attrs.len() && #[trigger] attrs[i].is_list && attrs[i].path@ == path && contains(
            attrs[i].tokens@,
            word,
        )
}

pub fn attrs_have_word(attrs: &Vec<Attribute>, path: &str, word: &str) -> (r: bool)
    ensures
        r == attrs_have(attrs@, path@, word@),
{
    let mut i: usize = 0;
    while i < attrs.len()
        invariant
            i <= attrs@.len(),
            forall|j: int|
                0 <= j < i ==> !(#[trigger] attrs@[j].is_list && attrs@[j].path@ == path@ && contains(
                    attrs@[j].tokens@,
                    word@,
                )),
        decreases attrs@.len() - i,
    {
        let a = &attrs[i];
        if a.is_list && text_eq(a.path.as_str(), path) && text_contains(a.tokens.as_str(), word) {
            return true;
        }
        i += 1;
    }
    false
}

/// The struct derives `Accounts`: a `derive(...)` attribute names it.
pub open spec fn derives_accounts(s: StructItem) -> bool {
    attrs_have(s.attrs@, "derive"@, "Accounts"@)
}

pub fn struct_derives_accounts(s: &StructItem) -> (r: bool)
    ensures
        r == derives_accounts(*s),
{
    attrs_have_word(&s.attrs, "derive", "Accounts")
}

/// The field is marked mutable in its `account(...)` attribute.
pub open spec fn field_is_mut(f: Field) -> bool {
    attrs_have(f.attrs@, "account"@, "mut"@)
}

/// The field's own `account(...)` attribute rules out aliasing: a
/// constraint, seeds, a bump, an inequality or a key comparison.
pub open spec fn field_guarded(f: Field) -> bool {
    let a = f.attrs@;
    let p = "account"@;
    attrs_have(a, p, "constraint"@) || attrs_have(a, p, "seeds"@) || attrs_have(a, p, "bump"@)
        || attrs_have(a, p, "!="@) || attrs_have(a, p, "key()"@)
}

/// Some field's `account(...)` constraint is an inequality that mentions
/// `name`.
pub open spec fn named_in_inequality(s: StructItem, name: Seq<char>) -> bool {
    exists|j: int, k: int|
        0 <= j < s.fields@.len() && 0 <= k < s.fields@[j].attrs@.len() && {
            let a = #[trigger] s.fields@[j].attrs@[k];
            &&& a.is_list
            &&& a.path@ == "account"@
            &&& contains(a.tokens@, "constraint"@)
            &&& contains(a.tokens@, name)
            &&& contains(a.tokens@, "!="@)
        }
}

pub open spec fn field_protected(s: StructItem, f: Field) -> bool {
    field_guarded(f) || named_in_inequality(s, f.name@)
}

/// A mutable field that nothing protects against being passed the same
/// account as another.
pub open spec fn exposed_mut(s: StructItem, f: Field) -> bool {
    field_is_mut(f) && !field_protected(s, f)
}

/// At least two mutable fields are unprotected.
pub open spec fn has_duplicate_mutable_accounts(s: StructItem) -> bool {
    let fs = s.fields@;
    exists|i: int, j: int| 0 <= i < j < fs.len() && #[trigger] exposed_mut(s, fs[i]) && #[trigger] exposed_mut(s, fs[j])
}

fn mentioned_in_inequality(s: &StructItem, name: &str) -> (r: bool)
    ensures
        r == named_in_inequality(*s, name@),
{
    let mut j: usize = 0;
    while j < s.fields.len()
        invariant
            j <= s.fields@.len(),
            forall|jj: int, k: int|
                0 <= jj < j && 0 <= k < s.fields@[jj].attrs@.len() ==> !({
                    let a = #[trigger] s.fields@[jj].attrs@[k];
                    &&& a.is_list
                    &&& a.path@ == "account"@
                    &&& contains(a.tokens@, "constraint"@)
                    &&& contains(a.tokens@, name@)
                    &&& contains(a.tokens@, "!="@)
                }),
        decreases s.fields@.len() - j,
    {
        let attrs = &s.fields[j].attrs;
        let mut k: usize = 0;
        while k < attrs.len()
            invariant
                j < s.fields@.len(),
                attrs@ == s.fields@[j as int].attrs@,
                k <= attrs@.len(),
                forall|jj: int, kk: int|
                    0 <= jj < j && 0 <= kk < s.fields@[jj].attrs@.len() ==> !({
                        let a = #[trigger] s.fields@[jj].attrs@[kk];
                        &&& a.is_list
                        &&& a.path@ == "account"@
                        &&& contains(a.tokens@, "constraint"@)
                        &&& contains(a.tokens@, name@)
                        &&& contains(a.tokens@, "!="@)
                    }),
                forall|kk: int|
                    0 <= kk < k ==> !({
                        let a = #[trigger] s.fields@[j as int].attrs@[kk];
                        &&& a.is_list
                        &&& a.path@ == "account"@
                        &&& contains(a.tokens@, "constraint"@)
                        &&& contains(a.tokens@, name@)
                        &&& contains(a.tokens@, "!="@)
                    }),
            decreases attrs@.len() - k,
        {
            let a = &attrs[k];
            if a.is_list && text_eq(a.path.as_str(), "account") && text_contains(a.tokens.as_str(), "constraint")
                && text_contains(a.tokens.as_str(), name) && text_contains(a.tokens.as_str(), "!=") {
                assert(s.fields@[j as int].attrs@[k as int] == *a);
                return true;
            }
            k += 1;
        }
        j += 1;
    }
    false
}

fn field_guarded_exec(f: &Field) -> (r: bool)
    ensures
        r == field_guarded(*f),
{
    attrs_have_word(&f.attrs, "account", "constraint") || attrs_have_word(&f.attrs, "account", "seeds")
        || attrs_have_word(&f.attrs, "account", "bump") || attrs_have_word(&f.attrs, "account", "!=")
        || attrs_have_word(&f.attrs, "account", "key()")
}

pub fn struct_has_duplicate_mutable_accounts(s: &StructItem) -> (r: bool)
    ensures
        r == has_duplicate_mutable_accounts(*s),
{
    let ghost fs = s.fields@;
    let mut first: Option<usize> = None;
    let mut i: usize = 0;
    while i < s.fields.len()
        invariant
            fs == s.fields@,
            i <= fs.len(),
            match first {
                None => forall|k: int| 0 <= k < i ==> !#[trigger] exposed_mut(*s, fs[k]),
                Some(a) => a < i && exposed_mut(*s, fs[a as int]) && forall|k: int|
                    0 <= k < i && k != a ==> !#[trigger] exposed_mut(*s, fs[k]),
            },
        decreases fs.len() - i,
    {
        let f = &s.fields[i];
        let exposed = attrs_have_word(&f.attrs, "account", "mut") && !field_guarded_exec(f)
            && !mentioned_in_inequality(s, f.name.as_str());
        if exposed {
            match first {
                Some(a) => {
                    assert(exposed_mut(*s, fs[a as int]) && exposed_mut(*s, fs[i as int]));
                    return true;
                },
                None => {
                    first = Some(i);
                },
            }
        }
        i += 1;
    }
    false
}

/// A field's `account(...)` attribute marks it as a signer.
pub open spec fn field_signer_attr(f: Field) -> bool {
    attrs_have(f.attrs@, "account"@, "signer"@)
}

/// The field's type is an account wrapper that checks nothing by itself.
pub open spec fn unchecked_account_type(f: Field) -> bool {
    f.ty_name@ == "AccountInfo"@ || f.ty_name@ == "UncheckedAccount"@ || f.ty_name@ == "SystemAccount"@
}

/// The field's name suggests an account that must sign.
pub open spec fn signer_like_name(f: Field) -> bool {
    contains(f.name@, "authority"@) || contains(f.name@, "signer"@) || contains(f.name@, "owner"@)
        || contains(f.name@, "admin"@)
}

/// The field has an unchecked account type or a signer-like name, and
/// nothing shows that it signs: no signer attribute, and a type other than
/// `Signer`. `AccountLoader` fields are never taken.
pub open spec fn field_needs_signer(f: Field) -> bool {
    &&& !field_signer_attr(f)
    &&& f.ty_name@ != "Signer"@
    &&& f.ty_name@ != "AccountLoader"@
    &&& unchecked_account_type(f) || signer_like_name(f)
}

/// An `Accounts` struct with a field that needs a signer check and lacks one.
pub open spec fn has_missing_signer_checks(s: StructItem) -> bool {
    &&& derives_accounts(s)
    &&& exists|i: int| 0 <= i < s.fields@.len() && #[trigger] field_needs_signer(s.fields@[i])
}

fn field_needs_signer_exec(f: &Field) -> (r: bool)
    ensures
        r == field_needs_signer(*f),
{
    if attrs_have_word(&f.attrs, "account", "signer") {
        return false;
    }
    let t = f.ty_name.as_str();
    if text_eq(t, "Signer") || text_eq(t, "AccountLoader") {
        return false;
    }
    let n = f.name.as_str();
    text_eq(t, "AccountInfo") || text_eq(t, "UncheckedAccount") || text_eq(t, "SystemAccount")
        || text_contains(n, "authority") || text_contains(n, "signer") || text_contains(n, "owner")
        || text_contains(n, "admin")
}

pub fn struct_has_missing_signer_checks(s: &StructItem) -> (r: bool)
    ensures
        r == has_missing_signer_checks(*s),
{
    if !struct_derives_accounts(s) {
        return false;
    }
    let mut i: usize = 0;
    while i < s.fields.len()
        invariant
            i <= s.fields@.len(),
            derives_accounts(*s),
            forall|k: int| 0 <= k < i ==> !#[trigger] field_needs_signer(s.fields@[k]),
        decreases s.fields@.len() - i,
    {
        if field_needs_signer_exec(&s.fields[i]) {
            return true;
        }
        i += 1;
    }
    false
}

/// Some field's `account(...)` attribute mentions an owner or an address.
pub open spec fn has_owner_check(s: StructItem) -> bool {
    exists|i: int|
        0 <= i < s.fields@.len() && (attrs_have(#[trigger] s.fields@[i].attrs@, "account"@, "owner"@)
            || attrs_have(s.fields@[i].attrs@, "account"@, "address"@))
}

pub fn struct_has_owner_check(s: &StructItem) -> (r: bool)
    ensures
        r == has_owner_check(*s),
{
    let mut i: usize = 0;
    while i < s.fields.len()
        invariant
            i <= s.fields@.len(),
            forall|k: int|
                0 <= k < i ==> !(attrs_have(#[trigger] s.fields@[k].attrs@, "account"@, "owner"@)
                    || attrs_have(s.fields@[k].attrs@, "account"@, "address"@)),
        decreases s.fields@.len() - i,
    {
        let a = &s.fields[i].attrs;
        if attrs_have_word(a, "account", "owner") || attrs_have_word(a, "account", "address") {
            return true;
        }
        i += 1;
    }
    false
}

/// A public function that takes a parameter whose type mentions `Context`.
pub open spec fn is_anchor_instruction(f: FnItem) -> bool {
    f.is_pub && exists|i: int| 0 <= i < f.params@.len() && contains(#[trigger] f.params@[i].ty_text@, "Context"@)
}

pub fn fn_is_anchor_instruction(f: &FnItem) -> (r: bool)
    ensures
        r == is_anchor_instruction(*f),
{
    if !f.is_pub {
        return false;
    }
    let mut i: usize = 0;
    while i < f.params.len()
        invariant
            f.is_pub,
            i <= f.params@.len(),
            forall|k: int| 0 <= k < i ==> !contains(#[trigger] f.params@[k].ty_text@, "Context"@),
        decreases f.params@.len() - i,
    {
        if text_contains(f.params[i].ty_text.as_str(), "Context") {
            return true;
        }
        i += 1;
    }
    false
}

/// The declared return type mentions `Result`; no return type does not.
pub open spec fn returns_result(f: FnItem) -> bool {
    match f.ret {
        Some(t) => contains(t@, "Result"@),
        None => false,
    }
}

/// A public function that does not return a `Result`.
pub open spec fn misses_error_handling(f: FnItem) -> bool {
    f.is_pub && !returns_result(f)
}

pub fn fn_misses_error_handling(f: &FnItem) -> (r: bool)
    ensures
        r == misses_error_handling(*f),
{
    let gives_result = match &f.ret {
        Some(t) => text_contains(t.as_str(), "Result"),
        None => false,
    };
    f.is_pub && !gives_result
}

/// The function is declared `unsafe` or holds an `unsafe` block.
pub open spec fn fn_uses_unsafe(f: FnItem) -> bool {
    f.is_unsafe || block_has_unsafe(f.body)
}

pub fn fn_uses_unsafe_exec(f: &FnItem) -> (r: bool)
    ensures
        r == fn_uses_unsafe(*f),
{
    f.is_unsafe || block_uses_unsafe(&f.body)
}

/// The function's body divides by something that may be zero.
pub open spec fn fn_has_unsafe_divisions(f: FnItem) -> bool {
    block_has_unsafe_division(f.body)
}

pub fn fn_has_unsafe_divisions_exec(f: &FnItem) -> (r: bool)
    ensures
        r == fn_has_unsafe_divisions(*f),
{
    block_divides_unsafely(&f.body)
}

/// Two mutable fields that no constraint anywhere protects make a struct
/// flagged for duplicate mutable accounts.
pub proof fn law_unprotected_mutable_pair(s: StructItem, i: int, j: int)
    requires
        0 <= i < j < s.fields@.len(),
        field_is_mut(s.fields@[i]),
        field_is_mut(s.fields@[j]),
        !field_protected(s, s.fields@[i]),
        !field_protected(s, s.fields@[j]),
    ensures
        has_duplicate_mutable_accounts(s),
{
    assert(exposed_mut(s, s.fields@[i]) && exposed_mut(s, s.fields@[j]));
}

/// When the only mutable fields are two whose names both appear in an
/// inequality constraint (`constraint = a.key() != b.key()`), the struct is
/// not flagged for duplicate mutable accounts.
pub proof fn law_inequality_constraint_clears_pair(s: StructItem, i: int, j: int, m: int, k: int)
    requires
        0 <= i < s.fields@.len(),
        0 <= j < s.fields@.len(),
        forall|x: int| 0 <= x < s.fields@.len() && #[trigger] field_is_mut(s.fields@[x]) ==> x == i || x == j,
        0 <= m < s.fields@.len(),
        0 <= k < s.fields@[m].attrs@.len(),
        s.fields@[m].attrs@[k].is_list,
        s.fields@[m].attrs@[k].path@ == "account"@,
        contains(s.fields@[m].attrs@[k].tokens@, "constraint"@),
        contains(s.fields@[m].attrs@[k].tokens@, "!="@),
        contains(s.fields@[m].attrs@[k].tokens@, s.fields@[i].name@),
        contains(s.fields@[m].attrs@[k].tokens@, s.fields@[j].name@),
    ensures
        !has_duplicate_mutable_accounts(s),
{
    let a = s.fields@[m].attrs@[k];
    assert(a == s.fields@[m].attrs@[k]);
    assert(named_in_inequality(s, s.fields@[i].name@));
    assert(named_in_inequality(s, s.fields@[j].name@));
}

/// Signer checks: in an `Accounts` struct, a field of type `AccountInfo`,
/// `UncheckedAccount` or `SystemAccount` without a signer attribute is
/// flagged; a field of type `Signer`, one with a signer attribute, and one of
/// type `AccountLoader` never are, whatever their names, so a struct made
/// only of such fields is not flagged. Retyping only the unchecked fields
/// may leave the struct flagged through a signer-like field name.
pub proof fn law_signer_checks(s: StructItem)
    requires
        derives_accounts(s),
    ensures
        (exists|i: int|
            0 <= i < s.fields@.len() && #[trigger] unchecked_account_type(s.fields@[i]) && !field_signer_attr(
                s.fields@[i],
            )) ==> has_missing_signer_checks(s),
        forall|i: int|
            0 <= i < s.fields@.len() && (s.fields@[i].ty_name@ == "Signer"@ || field_signer_attr(s.fields@[i])
                || s.fields@[i].ty_name@ == "AccountLoader"@) ==> !#[trigger] field_needs_signer(s.fields@[i]),
        (forall|i: int|
            0 <= i < s.fields@.len() ==> s.fields@[i].ty_name@ == "Signer"@ || field_signer_attr(s.fields@[i])
                || #[trigger] s.fields@[i].ty_name@ == "AccountLoader"@) ==> !has_missing_signer_checks(s),
{
    if exists|i: int|
        0 <= i < s.fields@.len() && #[trigger] unchecked_account_type(s.fields@[i]) && !field_signer_attr(s.fields@[i]) {
        let i = choose|i: int|
            0 <= i < s.fields@.len() && #[trigger] unchecked_account_type(s.fields@[i]) && !field_signer_attr(
                s.fields@[i],
            );
        reveal_strlit("AccountInfo");
        reveal_strlit("UncheckedAccount");
        reveal_strlit("SystemAccount");
        reveal_strlit("Signer");
        reveal_strlit("AccountLoader");
        assert("AccountInfo"@.len() != "Signer"@.len() && "AccountInfo"@.len() != "AccountLoader"@.len());
        assert("UncheckedAccount"@.len() != "Signer"@.len() && "UncheckedAccount"@.len() != "AccountLoader"@.len());
        assert("SystemAccount"@.len() != "Signer"@.len());
        assert("SystemAccount"@[0] != "AccountLoader"@[0]);
        assert(field_needs_signer(s.fields@[i]));
    }
}

} // verus!
