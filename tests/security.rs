use paperclip_core::operation::{Apiv2Errors, Apiv2Operation, ErrorMap, Operation};
use paperclip_core::security::{build_scheme, SecurityDecl, SecurityError};

fn decl(ident: &str) -> SecurityDecl {
    SecurityDecl {
        ident: ident.to_string(),
        alias: None,
        scheme_type: None,
        parent: None,
        name: None,
        in_: None,
        flow: None,
        auth_url: None,
        token_url: None,
        description: None,
        scopes: Vec::new(),
    }
}

fn oauth_parent() -> SecurityDecl {
    let mut p = decl("OAuth");
    p.alias = Some("MyOAuth".to_string());
    p.scheme_type = Some("oauth2".to_string());
    p.flow = Some("implicit".to_string());
    p.auth_url = Some("https://example.com/auth".to_string());
    p.scopes = vec![("read".to_string(), "Read access".to_string())];
    p
}

#[test]
fn child_adds_scopes_to_parent() {
    let parent = oauth_parent();
    let mut child = decl("Write");
    child.parent = Some("OAuth".to_string());
    child.scopes = vec![("write".to_string(), "Write access".to_string())];
    let ds = vec![parent, child];
    let (name, s) = build_scheme(&ds, 1).unwrap();
    assert_eq!(name, "MyOAuth");
    assert_eq!(s.type_, "oauth2");
    assert_eq!(s.flow.as_deref(), Some("implicit"));
    assert_eq!(s.auth_url.as_deref(), Some("https://example.com/auth"));
    let mut scopes = s.scopes.clone();
    scopes.sort();
    assert_eq!(
        scopes,
        vec![("read".to_string(), "Read access".to_string()), ("write".to_string(), "Write access".to_string())]
    );
}

#[test]
fn grandchild_sees_all_scopes() {
    let mut p = oauth_parent();
    p.scopes = Vec::new();
    let mut c = decl("C");
    c.parent = Some("OAuth".to_string());
    c.scopes = vec![("read".to_string(), "Read access".to_string())];
    let mut gc = decl("GC");
    gc.parent = Some("C".to_string());
    gc.scopes = vec![("read".to_string(), "Read all".to_string()), ("write".to_string(), "Write access".to_string())];
    let ds = vec![p, c, gc];
    let (name, s) = build_scheme(&ds, 2).unwrap();
    assert_eq!(name, "MyOAuth");
    let mut scopes = s.scopes.clone();
    scopes.sort();
    assert_eq!(
        scopes,
        vec![("read".to_string(), "Read all".to_string()), ("write".to_string(), "Write access".to_string())]
    );
}

#[test]
fn root_alias_defaults_to_type() {
    let mut k = decl("Key");
    k.scheme_type = Some("apiKey".to_string());
    k.name = Some("X-API-KEY".to_string());
    k.in_ = Some("header".to_string());
    let (name, s) = build_scheme(&vec![k], 0).unwrap();
    assert_eq!(name, "apiKey");
    assert_eq!(s.name.as_deref(), Some("X-API-KEY"));
    assert_eq!(s.in_.as_deref(), Some("header"));
    assert!(s.scopes.is_empty());
}

#[test]
fn declaration_errors() {
    assert_eq!(build_scheme(&vec![decl("A")], 0).unwrap_err(), SecurityError::Unspecified(0));
    let mut both = decl("B");
    both.scheme_type = Some("basic".to_string());
    both.parent = Some("A".to_string());
    assert_eq!(build_scheme(&vec![both], 0).unwrap_err(), SecurityError::Ambiguous(0));
    let mut orphan = decl("C");
    orphan.parent = Some("Nobody".to_string());
    assert_eq!(build_scheme(&vec![orphan], 0).unwrap_err(), SecurityError::UnknownParent(0));
    let mut x = decl("X");
    x.parent = Some("Y".to_string());
    let mut y = decl("Y");
    y.parent = Some("X".to_string());
    assert!(matches!(build_scheme(&vec![x, y], 0).unwrap_err(), SecurityError::CyclicParent(_)));
}

#[test]
fn parent_error_is_passed_on() {
    let mut c = decl("C");
    c.parent = Some("P".to_string());
    let p = decl("P");
    assert_eq!(build_scheme(&vec![c, p], 0).unwrap_err(), SecurityError::Unspecified(1));
}

#[test]
fn errors_add_responses() {
    let mut op = Operation::new();
    assert!(op.is_visible());
    op.responses.push((200, "OK".to_string()));
    op.responses.push((404, "Missing".to_string()));
    let e = ErrorMap { error_map: vec![(404, "Not found".to_string()), (500, "Server error".to_string())] };
    e.update_error_definitions(&mut op);
    let last = |code: u16| op.responses.iter().rev().find(|r| r.0 == code).map(|r| r.1.clone());
    assert_eq!(last(200).as_deref(), Some("OK"));
    assert_eq!(last(404).as_deref(), Some("Not found"));
    assert_eq!(last(500).as_deref(), Some("Server error"));
    assert!(op.definitions().is_empty());
}
