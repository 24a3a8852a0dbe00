use serde_ipc::error::ErrorKind;
use serde_ipc::handle::{pack, parse_handle, split};
use serde_ipc::registry::FFIManagerStub;
use serde_ipc::service::{ContextKind, Material, MetaFunc, Metadata, Param, Service};

fn scripted(name: &str) -> Service {
    let metadata = Metadata {
        name: name.to_string(),
        class: "python".to_string(),
        version: "0.1".to_string(),
        func: vec![MetaFunc {
            name: "add".to_string(),
            restype: "str".to_string(),
            args: vec![
                Param { label: "a".to_string(), kind: "str".to_string() },
                Param { label: "b".to_string(), kind: "str".to_string() },
            ],
        }],
    };
    let source = Material::Source("def add(a, b):\n    return a + b\n".to_string());
    match Service::load(&"entry.py".to_string(), &metadata, source) {
        Ok(service) => service,
        Err(kind) => panic!("load failed: {:?}", kind),
    }
}

fn registered(stub: &mut FFIManagerStub, name: &str) -> u64 {
    let fresh = if stub.lookup(name).is_some() { None } else { Some(scripted(name)) };
    let text = stub.register(&name.to_string(), fresh).unwrap();
    parse_handle(&text).unwrap()
}

#[test]
fn new_registry_holds_nothing() {
    let stub = FFIManagerStub::new("/srv/root".to_string());
    assert_eq!(stub.root(), "/srv/root");
    assert_eq!(stub.lookup("math"), None);
    assert!(stub.resolve(pack(1, 1)).is_none());
    assert!(stub.resolve(0).is_none());
}

#[test]
fn register_with_enters_a_new_service() {
    let mut stub = FFIManagerStub::new(String::new());
    let text = stub.register_with(&"math".to_string(), Some(scripted("math")), 7, 9).unwrap();
    assert_eq!(text, "30064771081");
    assert_eq!(parse_handle(&text), Some(pack(7, 9)));
    assert_eq!(stub.lookup("math"), Some(7));
    let (sig, usage, service) = stub.resolve(pack(7, 9)).unwrap();
    assert_eq!((sig, usage), (7, 9));
    assert_eq!(service.kind(), ContextKind::Python);
    assert!(stub.resolve(pack(7, 8)).is_none());
    assert!(stub.resolve(pack(6, 9)).is_none());
}

#[test]
fn register_with_keeps_the_signature_of_a_known_name() {
    let mut stub = FFIManagerStub::new(String::new());
    stub.register_with(&"math".to_string(), Some(scripted("math")), 7, 9).unwrap();
    let text = stub.register_with(&"math".to_string(), None, 1234, 10).unwrap();
    assert_eq!(parse_handle(&text), Some(pack(7, 10)));
    assert_eq!(stub.lookup("math"), Some(7));
    assert!(stub.resolve(pack(7, 9)).is_some());
    assert!(stub.resolve(pack(7, 10)).is_some());
    assert!(stub.resolve(pack(1234, 10)).is_none());
}

#[test]
fn register_with_refuses_taken_signatures() {
    let mut stub = FFIManagerStub::new(String::new());
    stub.register_with(&"math".to_string(), Some(scripted("math")), 7, 9).unwrap();
    assert_eq!(
        stub.register_with(&"math".to_string(), None, 7, 9),
        Err(ErrorKind::RegistryExhausted)
    );
    assert_eq!(
        stub.register_with(&"text".to_string(), Some(scripted("text")), 7, 1),
        Err(ErrorKind::RegistryExhausted)
    );
    assert_eq!(
        stub.register_with(&"text".to_string(), Some(scripted("text")), 0, 1),
        Err(ErrorKind::RegistryExhausted)
    );
    assert_eq!(stub.lookup("text"), None);
    assert!(stub.resolve(pack(7, 1)).is_none());
    assert!(stub.resolve(pack(7, 9)).is_some());
}

#[test]
fn a_usage_signature_may_be_zero() {
    let mut stub = FFIManagerStub::new(String::new());
    let text = stub.register_with(&"math".to_string(), Some(scripted("math")), 1, 0).unwrap();
    assert_eq!(text, "4294967296");
    assert!(stub.resolve(pack(1, 0)).is_some());
}

#[test]
fn a_new_name_needs_a_loaded_service() {
    let mut stub = FFIManagerStub::new(String::new());
    assert_eq!(stub.register(&"math".to_string(), None), Err(ErrorKind::EntryMissing));
    assert_eq!(
        stub.register_with(&"math".to_string(), None, 7, 9),
        Err(ErrorKind::EntryMissing)
    );
    assert_eq!(stub.lookup("math"), None);
}

#[test]
fn register_returns_a_live_handle() {
    let mut stub = FFIManagerStub::new(String::new());
    let text = stub.register(&"math".to_string(), Some(scripted("math"))).unwrap();
    let handle = parse_handle(&text).unwrap();
    assert_ne!(handle, 0);
    let (service_sig, usage_sig) = split(handle);
    assert_ne!(service_sig, 0);
    assert_eq!(stub.lookup("math"), Some(service_sig));
    let (sig, usage, _) = stub.resolve(handle).unwrap();
    assert_eq!((sig, usage), (service_sig, usage_sig));
}

#[test]
fn two_registrations_share_the_service_signature() {
    let mut stub = FFIManagerStub::new(String::new());
    let first = registered(&mut stub, "math");
    let second = registered(&mut stub, "math");
    assert_ne!(first, second);
    assert_eq!(first >> 32, second >> 32);
}

#[test]
fn services_get_distinct_signatures() {
    let mut stub = FFIManagerStub::new(String::new());
    let math = registered(&mut stub, "math");
    let text = registered(&mut stub, "text");
    assert_ne!(math >> 32, text >> 32);
}

#[test]
fn the_service_lives_until_its_last_usage_goes() {
    let mut stub = FFIManagerStub::new(String::new());
    let first = registered(&mut stub, "math");
    let second = registered(&mut stub, "math");
    stub.unregister(&"math".to_string(), &first.to_string());
    assert!(stub.resolve(first).is_none());
    assert!(stub.resolve(second).is_some());
    assert!(stub.lookup("math").is_some());
    stub.unregister(&"math".to_string(), &second.to_string());
    assert!(stub.resolve(second).is_none());
    assert!(stub.resolve(first).is_none());
    assert_eq!(stub.lookup("math"), None);
}

#[test]
fn a_handle_resolves_until_it_is_released() {
    let mut stub = FFIManagerStub::new(String::new());
    let kept = registered(&mut stub, "math");
    let sig = (kept >> 32) as u32;
    for _ in 0..5 {
        let other = registered(&mut stub, "math");
        let text = registered(&mut stub, "text");
        assert_eq!(stub.resolve(kept).map(|found| found.0), Some(sig));
        stub.unregister(&"math".to_string(), &other.to_string());
        stub.unregister(&"text".to_string(), &text.to_string());
        stub.unregister(&"text".to_string(), &kept.to_string());
        assert_eq!(stub.resolve(kept).map(|found| found.0), Some(sig));
    }
    stub.unregister(&"math".to_string(), &kept.to_string());
    assert!(stub.resolve(kept).is_none());
}

#[test]
fn balanced_registrations_unload_the_name() {
    let mut stub = FFIManagerStub::new(String::new());
    let a = registered(&mut stub, "math");
    let b = registered(&mut stub, "math");
    stub.unregister(&"math".to_string(), &a.to_string());
    let c = registered(&mut stub, "math");
    let d = registered(&mut stub, "text");
    stub.unregister(&"math".to_string(), &c.to_string());
    assert!(stub.lookup("math").is_some());
    stub.unregister(&"math".to_string(), &b.to_string());
    assert_eq!(stub.lookup("math"), None);
    assert!(stub.lookup("text").is_some());
    stub.unregister(&"text".to_string(), &d.to_string());
    assert_eq!(stub.lookup("text"), None);
}

#[test]
fn releasing_twice_counts_once() {
    let mut stub = FFIManagerStub::new(String::new());
    let a = registered(&mut stub, "math");
    let b = registered(&mut stub, "math");
    stub.unregister(&"math".to_string(), &a.to_string());
    stub.unregister(&"math".to_string(), &a.to_string());
    assert!(stub.resolve(b).is_some());
    assert!(stub.lookup("math").is_some());
}

#[test]
fn unregister_under_another_name_changes_nothing() {
    let mut stub = FFIManagerStub::new(String::new());
    let math = registered(&mut stub, "math");
    let text = registered(&mut stub, "text");
    stub.unregister(&"text".to_string(), &math.to_string());
    stub.unregister(&"none".to_string(), &math.to_string());
    assert!(stub.resolve(math).is_some());
    assert!(stub.resolve(text).is_some());
}

#[test]
fn unregister_of_what_is_no_handle_changes_nothing() {
    let mut stub = FFIManagerStub::new(String::new());
    let math = registered(&mut stub, "math");
    for text in ["0", "", "handle", "-1", "18446744073709551616"] {
        stub.unregister(&"math".to_string(), &text.to_string());
        assert!(stub.resolve(math).is_some());
        assert!(stub.lookup("math").is_some());
    }
}

#[test]
fn unregister_reads_the_handle_as_a_number() {
    let mut stub = FFIManagerStub::new(String::new());
    stub.register_with(&"math".to_string(), Some(scripted("math")), 1, 2).unwrap();
    stub.unregister(&"math".to_string(), &"+4294967298".to_string());
    assert_eq!(stub.lookup("math"), None);
}

#[test]
fn a_service_can_be_registered_again_after_teardown() {
    let mut stub = FFIManagerStub::new(String::new());
    let first = registered(&mut stub, "math");
    stub.unregister(&"math".to_string(), &first.to_string());
    assert_eq!(stub.register(&"math".to_string(), None), Err(ErrorKind::EntryMissing));
    let second = registered(&mut stub, "math");
    assert!(stub.resolve(second).is_some());
}

#[test]
fn indexes_agree_after_every_operation() {
    let mut stub = FFIManagerStub::new(String::new());
    let names = ["a", "b", "c"];
    let mut live: Vec<(usize, u64)> = Vec::new();
    for round in 0..30usize {
        let which = (round * 7 + 3) % 3;
        if round % 3 != 2 {
            live.push((which, registered(&mut stub, names[which])));
        } else if !live.is_empty() {
            let (name, handle) = live.remove((round * 5) % live.len());
            stub.unregister(&names[name].to_string(), &handle.to_string());
        }
        for (index, name) in names.iter().enumerate() {
            let loaded = live.iter().any(|(owner, _)| *owner == index);
            assert_eq!(stub.lookup(name).is_some(), loaded);
        }
        for (owner, handle) in live.iter() {
            let (sig, _, _) = stub.resolve(*handle).unwrap();
            assert_eq!(stub.lookup(names[*owner]), Some(sig));
        }
    }
}

#[test]
fn a_pinned_service_outlives_its_teardown() {
    let mut stub = FFIManagerStub::new(String::new());
    let handle = registered(&mut stub, "math");
    let pinned = stub.pin(handle).unwrap();
    assert!(stub.pin(handle ^ 1).is_none());
    stub.unregister(&"math".to_string(), &handle.to_string());
    assert!(stub.pin(handle).is_none());
    assert_eq!(stub.lookup("math"), None);
    assert_eq!(pinned.kind(), ContextKind::Python);
    assert_eq!(pinned.check_call("add", 2), Ok(()));
}

#[test]
fn pin_gives_the_service_that_resolve_finds() {
    let mut stub = FFIManagerStub::new(String::new());
    let handle = registered(&mut stub, "math");
    let pinned = stub.pin(handle).unwrap();
    let (_, _, found) = stub.resolve(handle).unwrap();
    assert!(std::ptr::eq(found, &*pinned));
    assert!(stub.pin(0).is_none());
}
