use vulka::slang::compiler::{
    BindlessPolicy, CapabilityId, CompilerOptionError, OptimizationLevel, SlangCompilerBuilder,
    SlangShaderStage, SLANG_CACHE_KEY_VERSION,
};
use vulka::slang::enums::{
    binding_type_from_str, binding_type_to_str, resource_access_from_str,
    resource_access_to_str, resource_shape_from_str, resource_shape_to_str, SlangBindingType,
    SlangResourceAccess, SlangResourceShape,
};
use vulka::slang::program::{SlangEntrypoint, SpirvCodeKey, SlangProgramKey, ModuleId};

#[test]
fn options_hash_digests_sorted_capabilities() {
    let builder = SlangCompilerBuilder::new()
        .capability("spirv_1_5", Some(CapabilityId(7)))
        .unwrap()
        .capability("SPV_EXT", Some(CapabilityId(9)))
        .unwrap()
        .bindless_space_index(3)
        .optimization(OptimizationLevel::High);
    let hash = builder.compute_options_hash("tag");
    let mut pre: Vec<u8> = vec![SLANG_CACHE_KEY_VERSION];
    pre.extend_from_slice(b"tag");
    pre.extend_from_slice(&2u32.to_le_bytes());
    pre.extend_from_slice(b"SPV_EXT\0spirv_1_5\0");
    pre.push(1);
    pre.extend_from_slice(&3u32.to_le_bytes());
    pre.extend_from_slice(&2u32.to_le_bytes());
    pre.push(1);
    assert_eq!(hash.0, *blake3::hash(&pre).as_bytes());
}

#[test]
fn unknown_capability_is_refused() {
    assert_eq!(
        SlangCompilerBuilder::new().capability("nope", None).unwrap_err(),
        CompilerOptionError::UnknownCapability("nope".to_string())
    );
}

#[test]
fn bindless_config_follows_the_space() {
    assert!(SlangCompilerBuilder::new().bindless_config().is_none());
    let builder = SlangCompilerBuilder::new().bindless_space_index(2);
    assert!(matches!(builder.bindless_config().unwrap().policy, BindlessPolicy::Indexable));
    let config = builder.bindless_policy(BindlessPolicy::Mutable).bindless_config().unwrap();
    assert_eq!(config.space_index, 2);
    assert!(matches!(config.policy, BindlessPolicy::Mutable));
}

#[test]
fn code_key_digests_entrypoint() {
    let ep = SlangEntrypoint::new(ModuleId::new("mod"), "main".to_string(), SlangShaderStage::Fragment);
    let key = SpirvCodeKey::new(SlangProgramKey([5u8; 32]), &ep);
    let mut pre = vec![5u8; 32];
    pre.push(1);
    pre.extend_from_slice(b"main\0mod");
    assert_eq!(key.0, *blake3::hash(&pre).as_bytes());
}

#[test]
fn enum_names_round_trip() {
    assert_eq!(binding_type_to_str(SlangBindingType::MutableTexture), "MutableTeture");
    assert_eq!(binding_type_from_str("MutableTeture"), Some(SlangBindingType::MutableTexture));
    assert_eq!(binding_type_from_str("ConstantBuffer"), Some(SlangBindingType::ConstantBuffer));
    assert_eq!(binding_type_from_str("Nope"), None);
    assert_eq!(resource_shape_to_str(SlangResourceShape::Texture2d), "SlangTexture2d");
    assert_eq!(resource_shape_from_str("SlangStructuredBuffer"), Some(SlangResourceShape::StructuredBuffer));
    assert_eq!(resource_access_to_str(SlangResourceAccess::NoAccess), "None");
    assert_eq!(resource_access_from_str("None"), Some(SlangResourceAccess::NoAccess));
    assert_eq!(resource_access_from_str("ReadWrite"), Some(SlangResourceAccess::ReadWrite));
}
