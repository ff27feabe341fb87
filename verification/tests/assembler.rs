//! The script-compiler boundary, against the real assembler: compiling MASM
//! source and resolving exported procedure digests.
use miden_client_core::compiler::{create_library, library_procedure_digest};
use miden_client_core::types::EngineError;

const COUNTER_SOURCE: &str = "export.increment_count\n    push.1\n    drop\nend\n\nexport.increment_count_two\n    push.2\n    drop\nend\n";

#[test]
fn assembling_a_library_exposes_its_procedure_digests() {
    let lib = create_library("external_contract::counter", COUNTER_SOURCE).unwrap();
    let one = library_procedure_digest(&lib, "external_contract::counter::increment_count")
        .unwrap();
    let two = library_procedure_digest(&lib, "external_contract::counter::increment_count_two")
        .unwrap();
    // Different procedures have different commitments.
    assert_ne!(one, two);
    // An unknown procedure is a lookup miss.
    assert_eq!(
        library_procedure_digest(&lib, "external_contract::counter::reset_count").err(),
        Some(EngineError::NotFound)
    );
}

#[test]
fn assembly_digests_are_reproducible() {
    let lib1 = create_library("external_contract::counter", COUNTER_SOURCE).unwrap();
    let lib2 = create_library("external_contract::counter", COUNTER_SOURCE).unwrap();
    let name = "external_contract::counter::increment_count";
    assert_eq!(
        library_procedure_digest(&lib1, name).unwrap(),
        library_procedure_digest(&lib2, name).unwrap()
    );
}

#[test]
fn rejected_source_is_a_script_failure() {
    let r = create_library("external_contract::broken", "this is not assembly");
    assert_eq!(r.err(), Some(EngineError::ScriptFailure));
}
