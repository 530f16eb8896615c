use vulka::slang::compiler::{CompilerOptionsHash, SlangShaderStage};
use vulka::slang::keys::{module_content_hash, sort_byte_strings};
use vulka::slang::linker::{LinkError, SlangLinker};
use vulka::slang::program::{ModuleId, SlangEntrypoint};

fn ep(module: &str, name: &str, stage: SlangShaderStage) -> SlangEntrypoint {
    SlangEntrypoint::new(ModuleId::new(module), name.to_string(), stage)
}

fn names(linker: &SlangLinker) -> Vec<(String, SlangShaderStage)> {
    linker
        .entrypoints()
        .iter()
        .map(|e| (e.name().to_string(), e.stage()))
        .collect()
}

#[test]
fn modules_are_kept_sorted_without_repeats() {
    let linker = SlangLinker::new()
        .add_module(&ModuleId::new("b"), true)
        .unwrap()
        .add_module(&ModuleId::new("a"), true)
        .unwrap()
        .add_module(&ModuleId::new("b"), true)
        .unwrap();
    let ids: Vec<&str> = linker.modules().iter().map(|m| m.as_str()).collect();
    assert_eq!(ids, vec!["a", "b"]);
    assert_eq!(
        SlangLinker::new().add_module(&ModuleId::new("c"), false).unwrap_err(),
        LinkError::ModuleNotLoaded("c".to_string())
    );
}

#[test]
fn entrypoints_ordered_by_stage_then_name() {
    let module = vec![
        ep("m", "zeta", SlangShaderStage::Vertex),
        ep("m", "alpha", SlangShaderStage::Fragment),
        ep("m", "beta", SlangShaderStage::Vertex),
        ep("m", "main", SlangShaderStage::Compute),
    ];
    let linker = SlangLinker::new()
        .add_all_entrypoints(&ModuleId::new("m"), Some(&module))
        .unwrap()
        .add_entrypoint(ep("m", "beta", SlangShaderStage::Vertex), true)
        .unwrap();
    assert_eq!(
        names(&linker),
        vec![
            ("beta".to_string(), SlangShaderStage::Vertex),
            ("zeta".to_string(), SlangShaderStage::Vertex),
            ("alpha".to_string(), SlangShaderStage::Fragment),
            ("main".to_string(), SlangShaderStage::Compute),
        ]
    );
    let staged = SlangLinker::new()
        .add_stage(&ModuleId::new("m"), Some(&module), SlangShaderStage::Vertex)
        .unwrap();
    assert_eq!(
        names(&staged),
        vec![
            ("beta".to_string(), SlangShaderStage::Vertex),
            ("zeta".to_string(), SlangShaderStage::Vertex),
        ]
    );
    assert_eq!(staged.modules().len(), 1);
    assert_eq!(
        SlangLinker::new().add_stage(&ModuleId::new("m"), None, SlangShaderStage::Vertex).unwrap_err(),
        LinkError::ModuleNotLoaded("m".to_string())
    );
}

#[test]
fn program_key_needs_an_entrypoint() {
    let options = CompilerOptionsHash([1u8; 32]);
    let empty = SlangLinker::new().add_module(&ModuleId::new("m"), true).unwrap();
    assert_eq!(empty.program_key(&options, &vec![None]).unwrap_err(), LinkError::NoEntrypoints);

    let linker = empty.add_entrypoint(ep("m", "main", SlangShaderStage::Compute), true).unwrap();
    let key = linker.program_key(&options, &vec![None]).unwrap();
    let mut pre: Vec<u8> = vec![1u8; 32];
    pre.extend_from_slice(&1u32.to_le_bytes());
    pre.extend_from_slice(b"m\0");
    pre.extend_from_slice(&1u32.to_le_bytes());
    pre.push(2);
    pre.extend_from_slice(b"main\0m\0");
    assert_eq!(key.0, *blake3::hash(&pre).as_bytes());
}

#[test]
fn content_hash_digests_sources_in_order() {
    let main = b"main source".to_vec();
    let deps = vec![b"dep one".to_vec(), b"dep two".to_vec()];
    let mut pre = main.clone();
    pre.extend_from_slice(&2u32.to_le_bytes());
    pre.extend_from_slice(b"dep one");
    pre.extend_from_slice(b"dep two");
    assert_eq!(module_content_hash(&main, &deps), *blake3::hash(&pre).as_bytes());
    assert_ne!(module_content_hash(&main, &deps), module_content_hash(&main, &vec![]));
}

#[test]
fn dependency_paths_sort_bytewise() {
    let sorted = sort_byte_strings(vec![b"b/x".to_vec(), b"a".to_vec(), b"B".to_vec()]);
    assert_eq!(sorted, vec![b"B".to_vec(), b"a".to_vec(), b"b/x".to_vec()]);
}
