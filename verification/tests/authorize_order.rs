use two_key_core::authorize::{authorize, ActionDef, AuthzOutcome, Capability, Catalog, ScopeMap};

fn catalog() -> Catalog {
    Catalog {
        service_id: "svc".into(),
        generation: 1,
        actions: vec![ActionDef { action: "doc.read".into() }, ActionDef { action: "doc.write".into() }],
        scope_dimensions: vec![],
    }
}

fn grant(action: &str, deny: bool) -> Capability {
    Capability {
        action: action.into(),
        scope: ScopeMap::new(),
        delegable: false,
        effect: if deny { Some("deny".into()) } else { None },
    }
}

#[test]
fn grant_order_does_not_change_the_answer() {
    let cat = catalog();
    let resource = ScopeMap::new();
    let a = vec![grant("doc.*", false), grant("doc.write", true)];
    let b = vec![grant("doc.write", true), grant("doc.*", false)];
    assert_eq!(authorize(&a, "doc.read", &resource, &cat), AuthzOutcome::Allowed);
    assert_eq!(authorize(&b, "doc.read", &resource, &cat), AuthzOutcome::Allowed);
    assert_eq!(authorize(&a, "doc.write", &resource, &cat), authorize(&b, "doc.write", &resource, &cat));
    assert_eq!(
        authorize(&a, "doc.write", &resource, &cat),
        AuthzOutcome::Denied { code: "EXPLICIT_DENY".into() }
    );
}
