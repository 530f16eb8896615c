use vulka::slang::compiler::SlangShaderStage;
use vulka::slang::program::{
    ModuleId, SelectionError, SlangEntrypoint, SlangPipelineSelection, SlangProgram,
    SlangProgramKey, SpirvCode, SpirvCodeKey,
};

fn ep(name: &str, stage: SlangShaderStage) -> SlangEntrypoint {
    SlangEntrypoint::new(ModuleId::new("m"), name.to_string(), stage)
}

fn code(word: u8) -> SpirvCode {
    SpirvCode::new(SpirvCodeKey([word; 32]), &[word, 0, 0, 0, 1, 0, 0, 0])
}

fn program(eps: Vec<SlangEntrypoint>) -> std::sync::Arc<SlangProgram> {
    let code_list = eps.iter().enumerate().map(|(i, e)| (e.duplicate(), code(i as u8))).collect();
    SlangProgram::new(SlangProgramKey([0; 32]), "{}".to_string(), eps, code_list)
}

#[test]
fn spirv_words_are_little_endian() {
    let c = SpirvCode::new(SpirvCodeKey([1; 32]), &[0x03, 0x02, 0x23, 0x07, 0xff, 0, 0, 0]);
    assert_eq!(c.as_words(), &[0x0723_0203, 0xff]);
    assert_eq!(c.len_words(), 2);
    assert_eq!(c.len_bytes(), 8);
    assert_eq!(c.key(), SpirvCodeKey([1; 32]));
}

#[test]
fn graphics_selection() {
    let p = program(vec![ep("vs", SlangShaderStage::Vertex), ep("fs", SlangShaderStage::Fragment)]);
    let pipeline = p.select_graphics().unwrap();
    assert_eq!(pipeline.entrypoint(SlangShaderStage::Vertex).unwrap().name(), "vs");
    assert_eq!(pipeline.entrypoint(SlangShaderStage::Fragment).unwrap().name(), "fs");
    assert!(pipeline.entrypoint(SlangShaderStage::Compute).is_none());
    assert_eq!(pipeline.code(SlangShaderStage::Fragment).unwrap().key(), SpirvCodeKey([1; 32]));
    assert_eq!(pipeline.entrypoints().len(), 2);
    assert_eq!(p.select_compute().unwrap_err(), SelectionError::NoComputeEntrypoints);
}

#[test]
fn duplicate_stage_is_refused() {
    let p = program(vec![
        ep("a", SlangShaderStage::Compute),
        ep("b", SlangShaderStage::Compute),
    ]);
    assert_eq!(
        p.select_all().unwrap_err(),
        SelectionError::DuplicateStage(SlangShaderStage::Compute, "b".to_string())
    );
    let one = p.select_one(ep("b", SlangShaderStage::Compute)).unwrap();
    assert_eq!(one.entrypoint(SlangShaderStage::Compute).unwrap().name(), "b");
    assert_eq!(
        p.select_one(ep("c", SlangShaderStage::Compute)).unwrap_err(),
        SelectionError::NotInProgram("c".to_string())
    );
    let empty = program(vec![]);
    assert_eq!(empty.select_all().unwrap_err(), SelectionError::NoEntrypoints);
    assert_eq!(empty.select_graphics().unwrap_err(), SelectionError::NoGraphicsEntrypoints);
}

#[test]
fn manual_selection() {
    let mut selection = SlangPipelineSelection::default();
    assert!(selection.is_empty());
    selection.set(ep("vs", SlangShaderStage::Vertex)).unwrap();
    assert!(selection.set(ep("vs2", SlangShaderStage::Vertex)).is_err());
    assert_eq!(selection.iter().len(), 1);
    let p = program(vec![ep("vs", SlangShaderStage::Vertex)]);
    assert!(p.select_each(selection).is_ok());
}
