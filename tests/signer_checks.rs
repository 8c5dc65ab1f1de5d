use solana_lint::ast::{Attribute, Field, Span, StructItem};
use solana_lint::filters::struct_has_missing_signer_checks as has_missing_signer_checks;

fn span() -> Span {
    Span { start_line: 1, start_column: 0, end_line: 1, end_column: 0 }
}

fn attr(path: &str, tokens: &str) -> Attribute {
    Attribute { path: path.to_string(), is_list: true, tokens: tokens.to_string() }
}

fn field(name: &str, ty_name: &str, ty_text: &str, attrs: Vec<Attribute>) -> Field {
    Field { name: name.to_string(), ty_name: ty_name.to_string(), ty_text: ty_text.to_string(), attrs }
}

fn accounts_struct(name: &str, fields: Vec<Field>) -> StructItem {
    StructItem {
        name: name.to_string(),
        attrs: vec![attr("derive", "Accounts")],
        fields,
        span: span(),
        text: format!("struct {}", name),
    }
}

#[test]
fn test_vulnerable_account_info() {
    let struct_def = accounts_struct(
        "VulnerableStruct",
        vec![field("authority", "AccountInfo", "AccountInfo < 'info >", vec![])],
    );
    assert!(has_missing_signer_checks(&struct_def), "Should detect AccountInfo without signer constraint");
}

#[test]
fn test_safe_signer_field() {
    let struct_def = accounts_struct(
        "SafeStruct",
        vec![field("authority", "AccountInfo", "AccountInfo < 'info >", vec![attr("account", "signer")])],
    );
    assert!(!has_missing_signer_checks(&struct_def), "Should not detect AccountInfo with signer constraint");
}

#[test]
fn test_vulnerable_unchecked_account() {
    let struct_def = accounts_struct(
        "VulnerableStruct",
        vec![field("admin", "UncheckedAccount", "UncheckedAccount < 'info >", vec![])],
    );
    assert!(has_missing_signer_checks(&struct_def), "Should detect UncheckedAccount without signer constraint");
}

#[test]
fn test_proper_signer_type() {
    let struct_def = accounts_struct(
        "SafeStruct",
        vec![field("proper_signer", "Signer", "Signer < 'info >", vec![])],
    );
    assert!(!has_missing_signer_checks(&struct_def), "Should not detect Signer<'info> type as vulnerable");
}

#[test]
fn test_mixed_fields() {
    let struct_def = accounts_struct(
        "MixedStruct",
        vec![
            field("proper_signer", "Signer", "Signer < 'info >", vec![]),
            field("vulnerable_account", "AccountInfo", "AccountInfo < 'info >", vec![]),
            field("safe_account", "AccountInfo", "AccountInfo < 'info >", vec![attr("account", "signer")]),
        ],
    );
    assert!(has_missing_signer_checks(&struct_def), "Should detect vulnerable field even with safe fields present");
}

#[test]
fn test_account_loader_safe() {
    let struct_def = accounts_struct(
        "SafeStruct",
        vec![field("data", "AccountLoader", "AccountLoader < 'info , MyData >", vec![])],
    );
    assert!(!has_missing_signer_checks(&struct_def), "Should not detect AccountLoader as vulnerable");
}

#[test]
fn test_empty_struct() {
    let struct_def = accounts_struct("EmptyStruct", vec![]);
    assert!(!has_missing_signer_checks(&struct_def), "Should not detect empty struct as vulnerable");
}

#[test]
fn system_account_without_signer_is_flagged() {
    let s = accounts_struct("S", vec![field("vault", "SystemAccount", "SystemAccount < 'info >", vec![])]);
    assert!(has_missing_signer_checks(&s));
}

#[test]
fn signer_like_name_without_signer_is_flagged() {
    let s = accounts_struct(
        "S",
        vec![field("owner", "Account", "Account < 'info , Vault >", vec![attr("account", "mut")])],
    );
    assert!(has_missing_signer_checks(&s));
}

#[test]
fn struct_without_accounts_derive_is_not_flagged() {
    let mut s = accounts_struct("S", vec![field("authority", "AccountInfo", "AccountInfo < 'info >", vec![])]);
    s.attrs = vec![attr("derive", "Clone")];
    assert!(!has_missing_signer_checks(&s));
}
