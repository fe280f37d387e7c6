//! Containment tests against the real file system: resolution succeeds
//! only for paths whose canonical form stays under the root, and the
//! component-wise prefix check does not fall for byte-prefix lookalikes.

use dev_server::bytes::{split_segments, SLASH};
use dev_server::config::Configuration;
use dev_server::machine::{start, Action};
use dev_server::resolve::{components_prefix, resolve_candidate};

#[test]
fn resolve_existing_under_root() {
    // `/.` canonicalizes back to the root itself, which is contained.
    assert_eq!(
        resolve_candidate(&b"/".to_vec(), &b".".to_vec()),
        Some(b"/".to_vec())
    );
}

#[test]
fn resolve_file_under_root() {
    assert_eq!(
        resolve_candidate(&b"/etc".to_vec(), &b"passwd".to_vec()),
        Some(b"/etc/passwd".to_vec())
    );
}

#[test]
fn resolve_root_itself() {
    assert_eq!(
        resolve_candidate(&b"/etc".to_vec(), &b".".to_vec()),
        Some(b"/etc".to_vec())
    );
}

#[test]
fn resolve_missing_is_none() {
    assert_eq!(
        resolve_candidate(&b"/".to_vec(), &b"no_such_file_at_all_7q3z".to_vec()),
        None
    );
}

#[test]
fn resolve_dotdot_escape_is_none() {
    // `/usr/bin/..` canonicalizes to `/usr`, which is outside `/usr/bin`,
    // so the resolver must refuse it even though the path exists.
    assert_eq!(resolve_candidate(&b"/usr/bin".to_vec(), &b"..".to_vec()), None);
}

#[test]
fn resolve_symlink_escape_is_none() {
    // `/proc/self/cwd` is a symlink out of `/proc/self`; following it
    // must not be taken as contained.
    assert_eq!(
        resolve_candidate(&b"/proc/self".to_vec(), &b"cwd".to_vec()),
        None
    );
}

#[test]
fn probe_reads_only_under_root() {
    let config = Configuration::default();
    let line = b"GET /passwd HTTP/1.1\r".to_vec();
    let (mut m, a) = start(&config, &line);
    let c = match a {
        Action::Resolve(c) => c,
        _ => panic!("expected a resolve action"),
    };
    assert_eq!(c, b"passwd".to_vec());
    let a = m.probe(&b"/etc".to_vec(), &c);
    match a {
        Action::Read(p) => assert_eq!(p, b"/etc/passwd".to_vec()),
        _ => panic!("expected a read action"),
    }
}

#[test]
fn containment_respects_component_boundaries() {
    // `/served-abc` is a byte-prefix of nothing served: `/served` must
    // not claim it.
    let root = split_segments(&b"/served".to_vec(), SLASH);
    let inside = split_segments(&b"/served/x".to_vec(), SLASH);
    let lookalike = split_segments(&b"/served-abc/x".to_vec(), SLASH);
    assert!(components_prefix(&root, &inside));
    assert!(!components_prefix(&root, &lookalike));
}
