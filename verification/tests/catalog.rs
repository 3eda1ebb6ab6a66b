use odradek_acceptance::checks::{catalog, Runner};
use odradek_acceptance::SubjectRole;

#[test]
fn catalog_lists_the_server_side_first() {
    let checks = catalog();
    assert_eq!(checks.len(), 70);
    assert!(checks[..59].iter().all(|c| c.role() == SubjectRole::Server));
    assert!(checks[59..].iter().all(|c| c.role() == SubjectRole::Client));
    assert_eq!(checks[0].id, "api-versions/v0-basic");
    assert_eq!(checks[59].id, "client/header-well-formed");
    assert_eq!(checks[69].id, "client/acknowledges-sasl-rejection");
}

#[test]
fn catalog_ids_are_unique() {
    let checks = catalog();
    for (i, a) in checks.iter().enumerate() {
        for b in &checks[i + 1..] {
            assert_ne!(a.id, b.id);
        }
    }
}

#[test]
fn the_runner_decides_the_role() {
    for check in catalog() {
        let expected = match check.runner {
            Runner::Server(_) => SubjectRole::Server,
            Runner::Client(_) => SubjectRole::Client,
        };
        assert_eq!(check.role(), expected);
        let prefixed = check.id.starts_with("client/");
        assert_eq!(prefixed, expected == SubjectRole::Client);
    }
}
