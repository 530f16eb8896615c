//! Linked programs: entry points, their SPIR-V code and cache keys, and the
//! choice of at most one entry point per stage for a pipeline.

use std::sync::Arc;
use vstd::prelude::*;
use crate::arc::share;
use crate::slang::compiler::{stage_code, CompilerOptionsHash, SlangShaderStage};
use crate::slang::keys::{
    blake3_digest, blake3_hash, le_u32, push_bytes, push_str_bytes, push_u32_le, utf8,
};
use crate::text::str_eq;

verus! {

/// The identity of a loaded module.
#[derive(Debug, Clone, PartialEq, Eq, Hash, Default)]
pub struct ModuleId(pub String);

impl ModuleId {
    /// The id of the module named `s`.
    pub fn new(s: &str) -> (r: Self)
        ensures
            r.0@ == s@,
    {
        ModuleId(s.to_owned())
    }

    /// The id as a string.
    pub fn as_str(&self) -> (r: &str)
        ensures
            r@ == self.0@,
    {
        self.0.as_str()
    }

    /// An equal, independent id.
    pub fn duplicate(&self) -> (r: Self)
        ensures
            r == *self,
    {
        ModuleId(self.0.clone())
    }
}

/// An entry point: its module, its name and its stage.
#[derive(Debug, Clone, PartialEq, Eq, Hash)]
pub struct SlangEntrypoint {
    module_id: ModuleId,
    name: String,
    stage: SlangShaderStage,
}

impl View for SlangEntrypoint {
    type V = (Seq<char>, Seq<char>, SlangShaderStage);

    open spec fn view(&self) -> (Seq<char>, Seq<char>, SlangShaderStage) {
        (self.module_spec().0@, self.name_spec()@, self.stage_spec())
    }
}

impl SlangEntrypoint {
    /// The module of the entry point.
    pub closed spec fn module_spec(&self) -> ModuleId {
        self.module_id
    }

    /// The name of the entry point.
    pub closed spec fn name_spec(&self) -> String {
        self.name
    }

    /// The stage of the entry point.
    pub closed spec fn stage_spec(&self) -> SlangShaderStage {
        self.stage
    }

    /// The entry point `name` of stage `stage` in module `module_id`.
    pub fn new(module_id: ModuleId, name: String, stage: SlangShaderStage) -> (r: Self)
        ensures
            r.module_spec() == module_id,
            r.name_spec() == name,
            r.stage_spec() == stage,
    {
        SlangEntrypoint { module_id, name, stage }
    }

    /// The module of the entry point.
    pub fn module_id(&self) -> (r: &ModuleId)
        ensures
            *r == self.module_spec(),
    {
        &self.module_id
    }

    /// The name of the entry point.
    pub fn name(&self) -> (r: &str)
        ensures
            r@ == self.name_spec()@,
    {
        self.name.as_str()
    }

    /// The stage of the entry point.
    pub fn stage(&self) -> (r: SlangShaderStage)
        ensures
            r == self.stage_spec(),
    {
        self.stage
    }

    /// An equal, independent entry point.
    pub fn duplicate(&self) -> (r: Self)
        ensures
            r == *self,
    {
        SlangEntrypoint {
            module_id: self.module_id.duplicate(),
            name: self.name.clone(),
            stage: self.stage,
        }
    }

    /// Whether two entry points have the same module, name and stage.
    pub fn same_as(&self, other: &SlangEntrypoint) -> (r: bool)
        ensures
            r == (self@ == other@),
    {
        self.stage == other.stage && str_eq(self.name.as_str(), other.name.as_str()) && str_eq(
            self.module_id.as_str(),
            other.module_id.as_str(),
        )
    }
}

/// Some entry point of `list` has the module, name and stage of `ep`.
pub open spec fn lists_entrypoint(list: Seq<SlangEntrypoint>, ep: SlangEntrypoint) -> bool {
    exists|i: int| 0 <= i < list.len() && (#[trigger] list[i])@ == ep@
}

/// Whether some entry point of `list` has the module, name and stage of `ep`.
pub fn contains_entrypoint(list: &Vec<SlangEntrypoint>, ep: &SlangEntrypoint) -> (r: bool)
    ensures
        r == lists_entrypoint(list@, *ep),
{
    let mut i: usize = 0;
    while i < list.len()
        invariant
            i <= list@.len(),
            forall|k: int| 0 <= k < i ==> (#[trigger] list@[k])@ != ep@,
        decreases list.len() - i,
    {
        if list[i].same_as(ep) {
            return true;
        }
        i = i + 1;
    }
    false
}

/// The cache key of a linked program.
#[derive(Debug, Clone, Copy, PartialEq, Eq, Hash)]
pub struct SlangProgramKey(pub [u8; 32]);

/// The cache key of one entry point's code.
#[derive(Debug, Clone, Copy, PartialEq, Eq, Hash)]
pub struct SpirvCodeKey(pub [u8; 32]);

/// The bytes hashed into an entry point's code key: the program key, the
/// stage number, the name and the module id, name and module each followed
/// by a zero byte (the module's only at the end).
pub open spec fn code_key_preimage(program_key: Seq<u8>, ep: SlangEntrypoint) -> Seq<u8> {
    program_key + seq![stage_code(ep.stage_spec())] + utf8(ep.name_spec()@) + seq![0u8] + utf8(
        ep.module_spec().0@,
    )
}

impl SpirvCodeKey {
    /// The key of the code of `entrypoint` in the program keyed `program_key`.
    pub fn new(program_key: SlangProgramKey, entrypoint: &SlangEntrypoint) -> (r: Self)
        ensures
            r.0@ == blake3_digest(code_key_preimage(program_key.0@, *entrypoint)),
    {
        let mut pre: Vec<u8> = Vec::new();
        push_bytes(&mut pre, program_key.0.as_slice());
        pre.push(entrypoint.stage().code());
        push_str_bytes(&mut pre, entrypoint.name());
        pre.push(0u8);
        push_str_bytes(&mut pre, entrypoint.module_id().as_str());
        proof {
            assert(pre@ =~= code_key_preimage(program_key.0@, *entrypoint));
        }
        SpirvCodeKey(blake3_hash(&pre))
    }
}

/// A module's part of a program key: its id followed by a zero byte, then
/// its content hash when the compiler knows the module.
pub open spec fn module_key_bytes(module: (ModuleId, Option<[u8; 32]>)) -> Seq<u8> {
    utf8(module.0.0@) + seq![0u8] + match module.1 {
        Some(hash) => hash@,
        None => Seq::empty(),
    }
}

/// An entry point's part of a program key: its stage number, then its name
/// and its module id, each followed by a zero byte.
pub open spec fn entrypoint_key_bytes(ep: SlangEntrypoint) -> Seq<u8> {
    seq![stage_code(ep.stage_spec())] + utf8(ep.name_spec()@) + seq![0u8] + utf8(
        ep.module_spec().0@,
    ) + seq![0u8]
}

/// The modules' parts of a program key, in order.
pub open spec fn modules_key_bytes(modules: Seq<(ModuleId, Option<[u8; 32]>)>) -> Seq<u8>
    decreases modules.len(),
{
    if modules.len() == 0 {
        Seq::empty()
    } else {
        modules_key_bytes(modules.drop_last()) + module_key_bytes(modules.last())
    }
}

/// The entry points' parts of a program key, in order.
pub open spec fn entrypoints_key_bytes(eps: Seq<SlangEntrypoint>) -> Seq<u8>
    decreases eps.len(),
{
    if eps.len() == 0 {
        Seq::empty()
    } else {
        entrypoints_key_bytes(eps.drop_last()) + entrypoint_key_bytes(eps.last())
    }
}

/// The bytes hashed into a program key: the options hash, the number of
/// modules and their parts, the number of entry points and their parts.
pub open spec fn program_key_preimage(
    options_hash: Seq<u8>,
    modules: Seq<(ModuleId, Option<[u8; 32]>)>,
    eps: Seq<SlangEntrypoint>,
) -> Seq<u8> {
    options_hash + le_u32(modules.len() as u32) + modules_key_bytes(modules) + le_u32(
        eps.len() as u32,
    ) + entrypoints_key_bytes(eps)
}

/// The key of the program linked from `modules` (each with the content hash
/// of its sources when the compiler knows it) and `entrypoints`, in the
/// order the linker holds them, under the compiler options `options_hash`.
pub fn compute_program_key(
    options_hash: &CompilerOptionsHash,
    modules: &Vec<(ModuleId, Option<[u8; 32]>)>,
    entrypoints: &Vec<SlangEntrypoint>,
) -> (r: SlangProgramKey)
    ensures
        r.0@ == blake3_digest(program_key_preimage(options_hash.0@, modules@, entrypoints@)),
{
    let mut pre: Vec<u8> = Vec::new();
    push_bytes(&mut pre, options_hash.0.as_slice());
    push_u32_le(&mut pre, modules.len() as u32);
    let ghost head = pre@;
    let mut i: usize = 0;
    while i < modules.len()
        invariant
            i <= modules@.len(),
            pre@ == head + modules_key_bytes(modules@.take(i as int)),
        decreases modules.len() - i,
    {
        let module = &modules[i];
        push_str_bytes(&mut pre, module.0.as_str());
        pre.push(0u8);
        match &module.1 {
            Some(hash) => push_bytes(&mut pre, hash.as_slice()),
            None => {},
        }
        i = i + 1;
        proof {
            let taken = modules@.take(i as int);
            assert(taken.drop_last() =~= modules@.take(i as int - 1));
            assert(taken.last() == modules@[i as int - 1]);
            assert(pre@ =~= head + modules_key_bytes(taken));
        }
    }
    proof {
        assert(modules@.take(i as int) =~= modules@);
    }
    push_u32_le(&mut pre, entrypoints.len() as u32);
    let ghost middle = pre@;
    let mut k: usize = 0;
    while k < entrypoints.len()
        invariant
            k <= entrypoints@.len(),
            pre@ == middle + entrypoints_key_bytes(entrypoints@.take(k as int)),
        decreases entrypoints.len() - k,
    {
        let ep = &entrypoints[k];
        pre.push(ep.stage().code());
        push_str_bytes(&mut pre, ep.name());
        pre.push(0u8);
        push_str_bytes(&mut pre, ep.module_id().as_str());
        pre.push(0u8);
        k = k + 1;
        proof {
            let taken = entrypoints@.take(k as int);
            assert(taken.drop_last() =~= entrypoints@.take(k as int - 1));
            assert(taken.last() == entrypoints@[k as int - 1]);
            assert(pre@ =~= middle + entrypoints_key_bytes(taken));
        }
    }
    proof {
        assert(entrypoints@.take(k as int) =~= entrypoints@);
        assert(pre@ =~= program_key_preimage(options_hash.0@, modules@, entrypoints@));
    }
    SlangProgramKey(blake3_hash(&pre))
}

/// The little-endian word of four bytes.
pub open spec fn le_word(b0: u8, b1: u8, b2: u8, b3: u8) -> u32 {
    (b0 as u32) | ((b1 as u32) << 8u32) | ((b2 as u32) << 16u32) | ((b3 as u32) << 24u32)
}

/// SPIR-V code: 32-bit words and the key of the code.
#[derive(Debug)]
pub struct SpirvCode {
    key: SpirvCodeKey,
    data: Vec<u32>,
}

impl SpirvCode {
    /// The words fit in memory as bytes.
    #[verifier::type_invariant]
    spec fn fits(self) -> bool {
        self.data@.len() * 4 <= usize::MAX
    }

    /// The key of the code.
    pub closed spec fn key_spec(&self) -> SpirvCodeKey {
        self.key
    }

    /// The words of the code.
    pub closed spec fn words(&self) -> Seq<u32> {
        self.data@
    }

    /// The code made of `bytes`, read as little-endian words; the number of
    /// bytes must be a multiple of four.
    pub fn new(key: SpirvCodeKey, bytes: &[u8]) -> (r: Self)
        requires
            bytes@.len() % 4 == 0,
        ensures
            r.key_spec() == key,
            r.words().len() * 4 == bytes@.len(),
            forall|i: int|
                0 <= i < r.words().len() ==> #[trigger] r.words()[i] == le_word(
                    bytes@[4 * i],
                    bytes@[4 * i + 1],
                    bytes@[4 * i + 2],
                    bytes@[4 * i + 3],
                ),
    {
        let n = bytes.len() / 4;
        let mut data: Vec<u32> = Vec::with_capacity(n);
        let mut i: usize = 0;
        while i < n
            invariant
                n * 4 == bytes@.len(),
                n * 4 <= usize::MAX,
                i <= n,
                data@.len() == i,
                forall|k: int|
                    0 <= k < i ==> #[trigger] data@[k] == le_word(
                        bytes@[4 * k],
                        bytes@[4 * k + 1],
                        bytes@[4 * k + 2],
                        bytes@[4 * k + 3],
                    ),
            decreases n - i,
        {
            proof {
                assert(i * 4 + 3 < n * 4) by (nonlinear_arith)
                    requires
                        i < n,
                ;
            }
            let base: usize = i * 4;
            let b0 = bytes[base];
            let b1 = bytes[base + 1];
            let b2 = bytes[base + 2];
            let b3 = bytes[base + 3];
            let word = (b0 as u32) | ((b1 as u32) << 8u32) | ((b2 as u32) << 16u32) | ((b3 as u32)
                << 24u32);
            data.push(word);
            i = i + 1;
        }
        SpirvCode { key, data }
    }

    /// The key of the code.
    pub fn key(&self) -> (r: SpirvCodeKey)
        ensures
            r == self.key_spec(),
    {
        self.key
    }

    /// The number of words.
    pub fn len_words(&self) -> (r: usize)
        ensures
            r == self.words().len(),
    {
        self.data.len()
    }

    /// The number of bytes: four per word.
    pub fn len_bytes(&self) -> (r: usize)
        ensures
            r == self.words().len() * 4,
    {
        proof {
            use_type_invariant(self);
        }
        self.data.len() * 4
    }

    /// The words of the code.
    pub fn as_words(&self) -> (r: &[u32])
        ensures
            r@ == self.words(),
    {
        self.data.as_slice()
    }
}

/// Why an entry point selection fails.
#[derive(Debug, Clone, PartialEq, Eq)]
pub enum SelectionError {
    /// Two selected entry points have the same stage; the name of the second.
    DuplicateStage(SlangShaderStage, String),
    NoEntrypoints,
    NoGraphicsEntrypoints,
    NoComputeEntrypoints,
    /// The program has no entry point of this name.
    NotInProgram(String),
}

/// At most one entry point per stage.
#[derive(Debug, Clone)]
pub struct SlangPipelineSelection {
    pub vertex: Option<SlangEntrypoint>,
    pub fragment: Option<SlangEntrypoint>,
    pub compute: Option<SlangEntrypoint>,
}

/// The entry point selected for `stage`, if any.
pub open spec fn slot_of(sel: SlangPipelineSelection, stage: SlangShaderStage) -> Option<
    SlangEntrypoint,
> {
    match stage {
        SlangShaderStage::Vertex => sel.vertex,
        SlangShaderStage::Fragment => sel.fragment,
        SlangShaderStage::Compute => sel.compute,
    }
}

/// The selection with `ep` in its stage's slot.
pub open spec fn with_slot(sel: SlangPipelineSelection, ep: SlangEntrypoint) -> SlangPipelineSelection {
    match ep.stage_spec() {
        SlangShaderStage::Vertex => SlangPipelineSelection { vertex: Some(ep), ..sel },
        SlangShaderStage::Fragment => SlangPipelineSelection { fragment: Some(ep), ..sel },
        SlangShaderStage::Compute => SlangPipelineSelection { compute: Some(ep), ..sel },
    }
}

/// Adding `ep` to `sel`: refused when its stage is taken.
pub open spec fn set_spec(sel: SlangPipelineSelection, ep: SlangEntrypoint) -> Result<
    SlangPipelineSelection,
    SelectionError,
> {
    if slot_of(sel, ep.stage_spec()) is Some {
        Err(SelectionError::DuplicateStage(ep.stage_spec(), ep.name_spec()))
    } else {
        Ok(with_slot(sel, ep))
    }
}

/// The selected entry points: vertex, fragment, compute.
pub open spec fn selected(sel: SlangPipelineSelection) -> Seq<SlangEntrypoint> {
    (match sel.vertex {
        Some(e) => seq![e],
        None => Seq::empty(),
    }) + (match sel.fragment {
        Some(e) => seq![e],
        None => Seq::empty(),
    }) + (match sel.compute {
        Some(e) => seq![e],
        None => Seq::empty(),
    })
}

/// The empty selection.
pub open spec fn empty_selection() -> SlangPipelineSelection {
    SlangPipelineSelection { vertex: None, fragment: None, compute: None }
}

impl Default for SlangPipelineSelection {
    /// The empty selection.
    fn default() -> (r: Self)
        ensures
            r == empty_selection(),
    {
        SlangPipelineSelection { vertex: None, fragment: None, compute: None }
    }
}

impl SlangPipelineSelection {
    /// Selects `ep` for its stage; fails, leaving the selection unchanged,
    /// when the stage already has an entry point.
    pub fn set(&mut self, ep: SlangEntrypoint) -> (r: Result<(), SelectionError>)
        ensures
            match set_spec(*old(self), ep) {
                Ok(sel) => r is Ok && *final(self) == sel,
                Err(e) => r == Err::<(), SelectionError>(e) && *final(self) == *old(self),
            },
    {
        let taken = match ep.stage() {
            SlangShaderStage::Vertex => self.vertex.is_some(),
            SlangShaderStage::Fragment => self.fragment.is_some(),
            SlangShaderStage::Compute => self.compute.is_some(),
        };
        if taken {
            return Err(SelectionError::DuplicateStage(ep.stage(), ep.name.clone()));
        }
        match ep.stage() {
            SlangShaderStage::Vertex => {
                self.vertex = Some(ep);
            },
            SlangShaderStage::Fragment => {
                self.fragment = Some(ep);
            },
            SlangShaderStage::Compute => {
                self.compute = Some(ep);
            },
        }
        Ok(())
    }

    /// Whether no stage has an entry point.
    pub fn is_empty(&self) -> (r: bool)
        ensures
            r == (self.vertex is None && self.fragment is None && self.compute is None),
    {
        self.vertex.is_none() && self.fragment.is_none() && self.compute.is_none()
    }

    /// The selected entry points: vertex, fragment, compute.
    pub fn iter(&self) -> (r: Vec<&SlangEntrypoint>)
        ensures
            r@.len() == selected(*self).len(),
            forall|i: int| 0 <= i < r@.len() ==> *(#[trigger] r@[i]) == selected(*self)[i],
    {
        let mut out: Vec<&SlangEntrypoint> = Vec::new();
        if let Some(e) = &self.vertex {
            out.push(e);
        }
        if let Some(e) = &self.fragment {
            out.push(e);
        }
        if let Some(e) = &self.compute {
            out.push(e);
        }
        out
    }
}

/// A linked program: its key, its layout (as serialized text), its entry
/// points and the code of each.
#[derive(Debug)]
pub struct SlangProgram {
    key: SlangProgramKey,
    layout: String,
    entrypoints: Vec<SlangEntrypoint>,
    code: Vec<(SlangEntrypoint, SpirvCode)>,
}

/// Which stages a selection keeps.
#[derive(Debug, Clone, Copy, PartialEq, Eq, Structural)]
pub enum StageFilter {
    All,
    Graphics,
    Compute,
}

/// Whether `filter` keeps `stage`.
pub open spec fn keeps(filter: StageFilter, stage: SlangShaderStage) -> bool {
    match filter {
        StageFilter::All => true,
        StageFilter::Graphics => stage != SlangShaderStage::Compute,
        StageFilter::Compute => stage == SlangShaderStage::Compute,
    }
}

/// Keeping, in order, the entry points whose stage `keep` keeps and
/// selecting each: the first failure, or the selection.
pub open spec fn fill_selection(
    eps: Seq<SlangEntrypoint>,
    keep: StageFilter,
) -> Result<SlangPipelineSelection, SelectionError>
    decreases eps.len(),
{
    if eps.len() == 0 {
        Ok(empty_selection())
    } else {
        match fill_selection(eps.drop_last(), keep) {
            Err(e) => Err(e),
            Ok(sel) => if keeps(keep, eps.last().stage_spec()) {
                set_spec(sel, eps.last())
            } else {
                Ok(sel)
            },
        }
    }
}

/// The result of a selection made from a filled selection: its failure, the
/// error when it is empty, or the pipeline of `program` with it.
pub open spec fn select_outcome(
    program: SlangProgram,
    filled: Result<SlangPipelineSelection, SelectionError>,
    empty_error: SelectionError,
    r: Result<SlangPipelineProgram, SelectionError>,
) -> bool {
    match filled {
        Err(e) => r == Err::<SlangPipelineProgram, SelectionError>(e),
        Ok(sel) => if sel.vertex is None && sel.fragment is None && sel.compute is None {
            r == Err::<SlangPipelineProgram, SelectionError>(empty_error)
        } else {
            r matches Ok(p) && *p.program == program && p.selection == sel
        },
    }
}

impl SlangProgram {
    /// The key of the program.
    pub closed spec fn key_spec(&self) -> SlangProgramKey {
        self.key
    }

    /// The serialized layout of the program.
    pub closed spec fn layout_spec(&self) -> String {
        self.layout
    }

    /// The entry points, in link order.
    pub closed spec fn entrypoints_spec(&self) -> Seq<SlangEntrypoint> {
        self.entrypoints@
    }

    /// The code of each entry point.
    pub closed spec fn code_spec(&self) -> Seq<(SlangEntrypoint, SpirvCode)> {
        self.code@
    }

    /// A program from its parts.
    pub fn new(
        key: SlangProgramKey,
        layout: String,
        entrypoints: Vec<SlangEntrypoint>,
        code: Vec<(SlangEntrypoint, SpirvCode)>,
    ) -> (r: Arc<Self>)
        ensures
            r.key_spec() == key,
            r.layout_spec() == layout,
            r.entrypoints_spec() == entrypoints@,
            r.code_spec() == code@,
    {
        Arc::new(SlangProgram { key, layout, entrypoints, code })
    }

    /// The key of the program.
    pub fn key(&self) -> (r: SlangProgramKey)
        ensures
            r == self.key_spec(),
    {
        self.key
    }

    /// The serialized layout of the program.
    pub fn layout(&self) -> (r: &String)
        ensures
            *r == self.layout_spec(),
    {
        &self.layout
    }

    /// The entry points, in link order.
    pub fn entrypoints(&self) -> (r: &[SlangEntrypoint])
        ensures
            r@ == self.entrypoints_spec(),
    {
        self.entrypoints.as_slice()
    }

    /// The code of the first entry of the program for an entry point with
    /// the module, name and stage of `entrypoint`, if any.
    pub fn code(&self, entrypoint: &SlangEntrypoint) -> (r: Option<&SpirvCode>)
        ensures
            match r {
                Some(c) => exists|i: int|
                    0 <= i < self.code_spec().len() && self.code_spec()[i].0@ == entrypoint@
                        && *c == self.code_spec()[i].1 && forall|j: int|
                        0 <= j < i ==> (#[trigger] self.code_spec()[j]).0@ != entrypoint@,
                None => forall|j: int|
                    0 <= j < self.code_spec().len() ==> (#[trigger] self.code_spec()[j]).0@
                        != entrypoint@,
            },
    {
        let mut i: usize = 0;
        while i < self.code.len()
            invariant
                i <= self.code@.len(),
                forall|j: int| 0 <= j < i ==> (#[trigger] self.code@[j]).0@ != entrypoint@,
            decreases self.code.len() - i,
        {
            if self.code[i].0.same_as(entrypoint) {
                proof {
                    assert(0 <= i < self.code_spec().len() && self.code_spec()[i as int].0@
                        == entrypoint@);
                }
                return Some(&self.code[i].1);
            }
            i = i + 1;
        }
        None
    }

    /// Selects the entry points whose stage `keep` keeps, in link order.
    fn fill(&self, keep: StageFilter) -> (r: Result<SlangPipelineSelection, SelectionError>)
        ensures
            r == fill_selection(self.entrypoints_spec(), keep),
    {
        let mut selection = SlangPipelineSelection::default();
        let mut i: usize = 0;
        while i < self.entrypoints.len()
            invariant
                i <= self.entrypoints@.len(),
                fill_selection(self.entrypoints@.take(i as int), keep) == Ok::<
                    SlangPipelineSelection,
                    SelectionError,
                >(selection),
            decreases self.entrypoints.len() - i,
        {
            let ep = &self.entrypoints[i];
            proof {
                let taken = self.entrypoints@.take(i as int + 1);
                assert(taken.drop_last() =~= self.entrypoints@.take(i as int));
                assert(taken.last() == self.entrypoints@[i as int]);
            }
            let wanted = match keep {
                StageFilter::All => true,
                StageFilter::Graphics => ep.stage() != SlangShaderStage::Compute,
                StageFilter::Compute => ep.stage() == SlangShaderStage::Compute,
            };
            if wanted {
                let copy = ep.duplicate();
                match selection.set(copy) {
                    Err(e) => {
                        proof {
                            lemma_fill_error_stays(self.entrypoints@, i as int + 1, keep);
                            assert(self.entrypoints@.take(self.entrypoints@.len() as int)
                                =~= self.entrypoints@);
                        }
                        return Err(e);
                    },
                    Ok(()) => {},
                }
            }
            i = i + 1;
        }
        proof {
            assert(self.entrypoints@.take(i as int) =~= self.entrypoints@);
        }
        Ok(selection)
    }

    /// Selects every entry point, at most one per stage; fails on a second
    /// entry point of a stage, or when there is none.
    pub fn select_all(self: &Arc<Self>) -> (r: Result<SlangPipelineProgram, SelectionError>)
        ensures
            select_outcome(
                **self,
                fill_selection(self.entrypoints_spec(), StageFilter::All),
                SelectionError::NoEntrypoints,
                r,
            ),
    {
        let filled = self.fill(StageFilter::All);
        proof {
            if filled is Ok {
                lemma_fill_members(self.entrypoints_spec(), StageFilter::All);
            }
        }
        self.finish(filled, SelectionError::NoEntrypoints)
    }

    /// Selects the vertex and fragment entry points; fails on a second entry
    /// point of a stage, or when there is none.
    pub fn select_graphics(self: &Arc<Self>) -> (r: Result<SlangPipelineProgram, SelectionError>)
        ensures
            select_outcome(
                **self,
                fill_selection(self.entrypoints_spec(), StageFilter::Graphics),
                SelectionError::NoGraphicsEntrypoints,
                r,
            ),
    {
        let filled = self.fill(StageFilter::Graphics);
        proof {
            if filled is Ok {
                lemma_fill_members(self.entrypoints_spec(), StageFilter::Graphics);
            }
        }
        self.finish(filled, SelectionError::NoGraphicsEntrypoints)
    }

    /// Selects the compute entry point; fails on a second one, or when there
    /// is none.
    pub fn select_compute(self: &Arc<Self>) -> (r: Result<SlangPipelineProgram, SelectionError>)
        ensures
            select_outcome(
                **self,
                fill_selection(self.entrypoints_spec(), StageFilter::Compute),
                SelectionError::NoComputeEntrypoints,
                r,
            ),
    {
        let filled = self.fill(StageFilter::Compute);
        proof {
            if filled is Ok {
                lemma_fill_members(self.entrypoints_spec(), StageFilter::Compute);
            }
        }
        self.finish(filled, SelectionError::NoComputeEntrypoints)
    }

    fn finish(
        self: &Arc<Self>,
        filled: Result<SlangPipelineSelection, SelectionError>,
        empty_error: SelectionError,
    ) -> (r: Result<SlangPipelineProgram, SelectionError>)
        requires
            filled matches Ok(sel) ==> forall|st: SlangShaderStage|
                #[trigger] slot_of(sel, st) matches Some(e) ==> lists_entrypoint(
                    self.entrypoints_spec(),
                    e,
                ),
        ensures
            select_outcome(**self, filled, empty_error, r),
    {
        let selection = match filled {
            Err(e) => return Err(e),
            Ok(selection) => selection,
        };
        if selection.is_empty() {
            return Err(empty_error);
        }
        proof {
            lemma_selected_slots(selection);
        }
        self.select_each(selection)
    }

    /// Selects exactly `entrypoint`; fails when the program has no entry
    /// point with its module, name and stage.
    pub fn select_one(self: &Arc<Self>, entrypoint: SlangEntrypoint) -> (r: Result<
        SlangPipelineProgram,
        SelectionError,
    >)
        ensures
            !lists_entrypoint(self.entrypoints_spec(), entrypoint) ==> r == Err::<
                SlangPipelineProgram,
                SelectionError,
            >(SelectionError::NotInProgram(entrypoint.name_spec())),
            lists_entrypoint(self.entrypoints_spec(), entrypoint) ==> (r matches Ok(p) && *p.program
                == **self && p.selection == with_slot(empty_selection(), entrypoint)),
    {
        if !contains_entrypoint(&self.entrypoints, &entrypoint) {
            return Err(SelectionError::NotInProgram(entrypoint.name.clone()));
        }
        let mut selection = SlangPipelineSelection::default();
        let _ = selection.set(entrypoint);
        self.select_each(selection)
    }

    /// The pipeline of this program with `selection`; fails on the first
    /// selected entry point the program does not have.
    pub fn select_each(self: &Arc<Self>, selection: SlangPipelineSelection) -> (r: Result<
        SlangPipelineProgram,
        SelectionError,
    >)
        ensures
            (forall|i: int|
                0 <= i < selected(selection).len() ==> lists_entrypoint(
                    self.entrypoints_spec(),
                    #[trigger] selected(selection)[i],
                )) ==> (r matches Ok(p) && *p.program == **self && p.selection == selection),
            r matches Err(e) ==> exists|i: int|
                0 <= i < selected(selection).len() && !lists_entrypoint(
                    self.entrypoints_spec(),
                    selected(selection)[i],
                ) && e == SelectionError::NotInProgram(selected(selection)[i].name_spec())
                    && forall|j: int|
                    0 <= j < i ==> lists_entrypoint(
                        self.entrypoints_spec(),
                        #[trigger] selected(selection)[j],
                    ),
    {
        let eps = selection.iter();
        let mut i: usize = 0;
        while i < eps.len()
            invariant
                i <= eps@.len(),
                eps@.len() == selected(selection).len(),
                forall|k: int| 0 <= k < eps@.len() ==> *(#[trigger] eps@[k]) == selected(selection)[k],
                forall|j: int|
                    0 <= j < i ==> lists_entrypoint(
                        self.entrypoints_spec(),
                        #[trigger] selected(selection)[j],
                    ),
            decreases eps.len() - i,
        {
            if !contains_entrypoint(&self.entrypoints, eps[i]) {
                return Err(SelectionError::NotInProgram(eps[i].name.clone()));
            }
            i = i + 1;
        }
        Ok(SlangPipelineProgram { program: share(self), selection })
    }
}

/// Some entry point of `eps` is of stage `stage`.
pub open spec fn has_stage(eps: Seq<SlangEntrypoint>, stage: SlangShaderStage) -> bool {
    exists|i: int| 0 <= i < eps.len() && (#[trigger] eps[i]).stage_spec() == stage
}

/// A successful fill puts each entry point in its own stage's slot, and
/// fills exactly the slots of the kept stages that the entry points have.
proof fn lemma_fill_slots(eps: Seq<SlangEntrypoint>, keep: StageFilter)
    requires
        fill_selection(eps, keep) is Ok,
    ensures
        forall|st: SlangShaderStage|
            {
                &&& (#[trigger] slot_of(fill_selection(eps, keep)->Ok_0, st) is Some <==> (keeps(
                    keep,
                    st,
                ) && has_stage(eps, st)))
                &&& (slot_of(fill_selection(eps, keep)->Ok_0, st) matches Some(e) ==> e.stage_spec()
                    == st)
            },
    decreases eps.len(),
{
    if eps.len() == 0 {
        assert forall|st: SlangShaderStage| !has_stage(eps, st) by {}
    } else {
        let prev = eps.drop_last();
        let last = eps.last();
        if fill_selection(prev, keep) is Err {
            assert(false);
        }
        lemma_fill_slots(prev, keep);
        let before = fill_selection(prev, keep)->Ok_0;
        let sel = fill_selection(eps, keep)->Ok_0;
        assert forall|st: SlangShaderStage| {
            &&& (#[trigger] slot_of(sel, st) is Some <==> (keeps(keep, st) && has_stage(eps, st)))
            &&& (slot_of(sel, st) matches Some(e) ==> e.stage_spec() == st)
        } by {
            assert(slot_of(before, st) is Some <==> (keeps(keep, st) && has_stage(prev, st)));
            assert(slot_of(before, st) matches Some(e) ==> e.stage_spec() == st);
            if keeps(keep, last.stage_spec()) {
                assert(fill_selection(eps, keep) == set_spec(before, last));
                assert(slot_of(before, last.stage_spec()) is None);
                assert(sel == with_slot(before, last));
                if st == last.stage_spec() {
                    assert(slot_of(sel, st) == Some(last));
                } else {
                    assert(slot_of(sel, st) == slot_of(before, st));
                }
            } else {
                assert(sel == before);
            }
            if has_stage(prev, st) {
                let i = choose|i: int| 0 <= i < prev.len() && (#[trigger] prev[i]).stage_spec() == st;
                assert(eps[i] == prev[i]);
            }
            if last.stage_spec() == st {
                assert(eps[eps.len() - 1] == last);
            }
            if has_stage(eps, st) && !has_stage(prev, st) {
                let i = choose|i: int| 0 <= i < eps.len() && (#[trigger] eps[i]).stage_spec() == st;
                if i < eps.len() - 1 {
                    assert(prev[i] == eps[i]);
                }
            }
        }
    }
}

/// The graphics selection takes only vertex and fragment entry points and
/// the compute selection only compute ones; every selection puts each entry
/// point in the slot of its own stage and, when it succeeds, leaves out no
/// stage it takes that the program has.
pub proof fn lemma_selections_keep_their_stages(eps: Seq<SlangEntrypoint>)
    ensures
        fill_selection(eps, StageFilter::Graphics) matches Ok(sel) ==> {
            &&& sel.compute is None
            &&& (sel.vertex is Some <==> has_stage(eps, SlangShaderStage::Vertex))
            &&& (sel.fragment is Some <==> has_stage(eps, SlangShaderStage::Fragment))
        },
        fill_selection(eps, StageFilter::Compute) matches Ok(sel) ==> {
            &&& sel.vertex is None
            &&& sel.fragment is None
            &&& (sel.compute is Some <==> has_stage(eps, SlangShaderStage::Compute))
        },
        fill_selection(eps, StageFilter::All) matches Ok(sel) ==> {
            &&& (sel.vertex is Some <==> has_stage(eps, SlangShaderStage::Vertex))
            &&& (sel.fragment is Some <==> has_stage(eps, SlangShaderStage::Fragment))
            &&& (sel.compute is Some <==> has_stage(eps, SlangShaderStage::Compute))
        },
        forall|keep: StageFilter, st: SlangShaderStage|
            fill_selection(eps, keep) is Ok ==> (#[trigger] slot_of(
                fill_selection(eps, keep)->Ok_0,
                st,
            ) matches Some(e) ==> e.stage_spec() == st),
{
    assert forall|keep: StageFilter| fill_selection(eps, keep) is Ok implies {
        let sel = fill_selection(eps, keep)->Ok_0;
        &&& (slot_of(sel, SlangShaderStage::Vertex) is Some <==> (keeps(keep, SlangShaderStage::Vertex)
            && has_stage(eps, SlangShaderStage::Vertex)))
        &&& (slot_of(sel, SlangShaderStage::Fragment) is Some <==> (keeps(
            keep,
            SlangShaderStage::Fragment,
        ) && has_stage(eps, SlangShaderStage::Fragment)))
        &&& (slot_of(sel, SlangShaderStage::Compute) is Some <==> (keeps(
            keep,
            SlangShaderStage::Compute,
        ) && has_stage(eps, SlangShaderStage::Compute)))
        &&& forall|st: SlangShaderStage| #[trigger] slot_of(fill_selection(eps, keep)->Ok_0, st) matches Some(e) ==> e.stage_spec() == st
    } by {
        lemma_fill_slots(eps, keep);
    }
}

/// Every entry point a successful fill selects is one of those filled from.
proof fn lemma_fill_members(eps: Seq<SlangEntrypoint>, keep: StageFilter)
    requires
        fill_selection(eps, keep) is Ok,
    ensures
        forall|st: SlangShaderStage|
            #[trigger] slot_of(fill_selection(eps, keep)->Ok_0, st) matches Some(e)
                ==> lists_entrypoint(eps, e),
    decreases eps.len(),
{
    if eps.len() > 0 {
        let prev = eps.drop_last();
        lemma_fill_members(prev, keep);
        let now = fill_selection(eps, keep)->Ok_0;
        assert forall|st: SlangShaderStage| #[trigger] slot_of(now, st) is Some
            implies lists_entrypoint(eps, slot_of(now, st)->Some_0) by {
            let e = slot_of(now, st)->Some_0;
            if e == eps.last() {
                assert(eps[eps.len() - 1] == e);
            } else {
                let sel = fill_selection(prev, keep)->Ok_0;
                assert(slot_of(sel, st) == Some(e));
                let j = choose|j: int| 0 <= j < prev.len() && (#[trigger] prev[j])@ == e@;
                assert(eps[j] == prev[j]);
            }
        }
    }
}

/// Each selected entry point is the one of some stage.
proof fn lemma_selected_slots(sel: SlangPipelineSelection)
    ensures
        forall|i: int|
            0 <= i < selected(sel).len() ==> exists|st: SlangShaderStage|
                slot_of(sel, st) == Some(#[trigger] selected(sel)[i]),
{
    assert forall|i: int| 0 <= i < selected(sel).len() implies exists|st: SlangShaderStage|
        slot_of(sel, st) == Some(#[trigger] selected(sel)[i]) by {
        let e = selected(sel)[i];
        if sel.vertex == Some(e) {
            assert(slot_of(sel, SlangShaderStage::Vertex) == Some(e));
        } else if sel.fragment == Some(e) {
            assert(slot_of(sel, SlangShaderStage::Fragment) == Some(e));
        } else {
            assert(slot_of(sel, SlangShaderStage::Compute) == Some(e));
        }
    }
}

/// Once filling fails, it keeps failing with the same error.
proof fn lemma_fill_error_stays(eps: Seq<SlangEntrypoint>, k: int, keep: StageFilter)
    requires
        0 <= k <= eps.len(),
        fill_selection(eps.take(k), keep) is Err,
    ensures
        fill_selection(eps.take(eps.len() as int), keep) == fill_selection(eps.take(k), keep),
    decreases eps.len() - k,
{
    if k < eps.len() {
        assert(eps.take(k + 1).drop_last() =~= eps.take(k));
        lemma_fill_error_stays(eps, k + 1, keep);
    }
}

/// A program with at most one entry point per stage: what a pipeline is
/// built from.
#[derive(Debug)]
pub struct SlangPipelineProgram {
    pub program: Arc<SlangProgram>,
    pub selection: SlangPipelineSelection,
}

impl SlangPipelineProgram {
    /// The key of the program.
    pub fn key(&self) -> (r: SlangProgramKey)
        ensures
            r == self.program.key_spec(),
    {
        self.program.key()
    }

    /// The serialized layout of the program.
    pub fn layout(&self) -> (r: &String)
        ensures
            *r == self.program.layout_spec(),
    {
        self.program.layout()
    }

    /// The entry point selected for `stage`, if any.
    pub fn entrypoint(&self, stage: SlangShaderStage) -> (r: Option<&SlangEntrypoint>)
        ensures
            match r {
                Some(e) => slot_of(self.selection, stage) == Some(*e),
                None => slot_of(self.selection, stage) is None,
            },
    {
        match stage {
            SlangShaderStage::Vertex => self.selection.vertex.as_ref(),
            SlangShaderStage::Fragment => self.selection.fragment.as_ref(),
            SlangShaderStage::Compute => self.selection.compute.as_ref(),
        }
    }

    /// The selected entry points: vertex, fragment, compute.
    pub fn entrypoints(&self) -> (r: Vec<&SlangEntrypoint>)
        ensures
            r@.len() == selected(self.selection).len(),
            forall|i: int| 0 <= i < r@.len() ==> *(#[trigger] r@[i]) == selected(self.selection)[i],
    {
        self.selection.iter()
    }

    /// The code of the entry point selected for `stage`, if both exist: the
    /// first entry of the program's code for that entry point.
    pub fn code(&self, stage: SlangShaderStage) -> (r: Option<&SpirvCode>)
        ensures
            slot_of(self.selection, stage) is None ==> r is None,
            r matches Some(c) ==> slot_of(self.selection, stage) matches Some(e) && exists|i: int|
                0 <= i < self.program.code_spec().len() && self.program.code_spec()[i].0@ == e@
                    && *c == self.program.code_spec()[i].1 && forall|j: int|
                    0 <= j < i ==> (#[trigger] self.program.code_spec()[j]).0@ != e@,
            r is None ==> match slot_of(self.selection, stage) {
                Some(e) => forall|j: int|
                    0 <= j < self.program.code_spec().len() ==> (
                    #[trigger] self.program.code_spec()[j]).0@ != e@,
                None => true,
            },
    {
        match self.entrypoint(stage) {
            Some(ep) => self.program.code(ep),
            None => None,
        }
    }
}

} // verus!
