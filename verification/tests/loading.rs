use wasm_test_harness::loader::load;
use wasm_test_harness::outcome::LoadError;

fn minimal_module() -> Vec<u8> {
    // The smallest structurally valid core module: magic and version alone.
    vec![0x00, 0x61, 0x73, 0x6d, 0x01, 0x00, 0x00, 0x00]
}

#[test]
fn unobtainable_input_is_fatal_before_any_test() {
    let r = load(None, &minimal_module());
    assert!(matches!(r, Err(LoadError::Unreadable)));
}

#[test]
fn malformed_module_fails_encoding() {
    let r = load(Some(b"not a wasm module".to_vec()), &minimal_module());
    match r {
        Err(LoadError::EncodingFailed(detail)) => assert!(!detail.is_empty()),
        Err(LoadError::Unreadable) => panic!("a present input is not unreadable"),
        Ok(_) => panic!("garbage must not encode"),
    }
}

#[test]
fn malformed_adapter_fails_encoding() {
    let r = load(Some(minimal_module()), &b"not a wasm module".to_vec());
    assert!(matches!(r, Err(LoadError::EncodingFailed(_))));
}

#[test]
fn valid_module_encodes_to_a_component() {
    let module = minimal_module();
    let r = load(Some(module.clone()), &minimal_module());
    match r {
        Ok(component) => {
            assert_ne!(component, module);
            assert!(component.len() > 8);
            assert_eq!(&component[0..4], &[0x00, 0x61, 0x73, 0x6d]);
        }
        Err(LoadError::EncodingFailed(detail)) => {
            panic!("encoding failed: {}", String::from_utf8_lossy(&detail));
        }
        Err(LoadError::Unreadable) => panic!("a present input is not unreadable"),
    }
}
