//! Compiler configuration: the options a Slang session is built with, and the
//! names of modules, stages and entry points.

use vstd::prelude::*;
use crate::slang::keys::{
    blake3_digest, blake3_hash, byte_views, bytes_sorted, le_u32, push_bytes, push_str_bytes,
    push_u32_le, sort_byte_strings, utf8,
};

verus! {

/// Version of the compiler cache key format.
pub const SLANG_CACHE_KEY_VERSION: u8 = 1;

/// A shader stage this toolchain compiles for.
#[derive(Debug, Clone, Copy, PartialEq, Eq, PartialOrd, Ord, Hash, Structural)]
pub enum SlangShaderStage {
    Vertex,
    Fragment,
    Compute,
}

/// The number of a stage: its position in declaration order.
pub open spec fn stage_code(stage: SlangShaderStage) -> u8 {
    match stage {
        SlangShaderStage::Vertex => 0,
        SlangShaderStage::Fragment => 1,
        SlangShaderStage::Compute => 2,
    }
}

impl SlangShaderStage {
    /// The number of the stage: its position in declaration order.
    pub fn code(self) -> (r: u8)
        ensures
            r == stage_code(self),
    {
        match self {
            SlangShaderStage::Vertex => 0,
            SlangShaderStage::Fragment => 1,
            SlangShaderStage::Compute => 2,
        }
    }
}

/// How bindless resources are exposed.
#[derive(Debug, Clone, Copy, PartialEq, Eq, Structural)]
pub enum BindlessPolicy {
    Indexable,
    Mutable,
}

/// Where bindless resources live and how they are exposed.
#[derive(Debug, Clone, Copy, PartialEq, Eq, Structural)]
pub struct BindlessConfig {
    pub space_index: i32,
    pub policy: BindlessPolicy,
}

/// How hard the compiler optimizes, numbered as Slang numbers its levels.
#[derive(Debug, Clone, Copy, PartialEq, Eq, Structural)]
pub enum OptimizationLevel {
    /// No optimization.
    Disabled,
    Default,
    High,
    Maximal,
}

/// The number Slang gives an optimization level.
pub open spec fn optimization_code(level: OptimizationLevel) -> u32 {
    match level {
        OptimizationLevel::Disabled => 0,
        OptimizationLevel::Default => 1,
        OptimizationLevel::High => 2,
        OptimizationLevel::Maximal => 3,
    }
}

impl OptimizationLevel {
    /// The number Slang gives the level.
    pub fn code(self) -> (r: u32)
        ensures
            r == optimization_code(self),
    {
        match self {
            OptimizationLevel::Disabled => 0,
            OptimizationLevel::Default => 1,
            OptimizationLevel::High => 2,
            OptimizationLevel::Maximal => 3,
        }
    }
}

/// A Slang capability, by the number the global session gave its name.
#[derive(Debug, Clone, Copy, PartialEq, Eq, Structural)]
pub struct CapabilityId(pub i32);

/// Why a compiler option is refused.
#[derive(Debug, Clone, PartialEq, Eq)]
pub enum CompilerOptionError {
    /// The global session does not know the capability of this name.
    UnknownCapability(String),
}

/// The options a compiler session is built with.
#[derive(Debug, Clone)]
pub struct SlangCompilerBuilder {
    pub capabilities: Vec<(String, CapabilityId)>,
    pub bindless_space_index: Option<i32>,
    pub bindless_policy: Option<BindlessPolicy>,
    pub optimization: OptimizationLevel,
    pub matrix_layout_row: bool,
    pub cache_path: Option<String>,
    pub search_paths: Vec<String>,
}

impl SlangCompilerBuilder {
    /// The default options: no capabilities, no bindless space, default
    /// optimization, row-major matrices, no cache and no search paths.
    pub fn new() -> (r: Self)
        ensures
            r.capabilities@.len() == 0,
            r.bindless_space_index is None,
            r.bindless_policy is None,
            r.optimization == OptimizationLevel::Default,
            r.matrix_layout_row,
            r.cache_path is None,
            r.search_paths@.len() == 0,
    {
        SlangCompilerBuilder {
            capabilities: Vec::new(),
            bindless_space_index: None,
            bindless_policy: None,
            optimization: OptimizationLevel::Default,
            matrix_layout_row: true,
            cache_path: None,
            search_paths: Vec::new(),
        }
    }

    /// Adds the capability `name`. `found` is what the global session's
    /// lookup of `name` gave: `None` when the name is unknown, which is refused.
    pub fn capability(self, name: &str, found: Option<CapabilityId>) -> (r: Result<
        Self,
        CompilerOptionError,
    >)
        ensures
            found is None <==> r is Err,
            r matches Err(CompilerOptionError::UnknownCapability(n)) ==> n@ == name@,
            r matches Ok(b) ==> found matches Some(cap) && b.capabilities@.len()
                == self.capabilities@.len() + 1 && b.capabilities@.last().0@ == name@
                && b.capabilities@.last().1 == cap && b.capabilities@.drop_last()
                == self.capabilities@ && b.bindless_space_index == self.bindless_space_index
                && b.bindless_policy == self.bindless_policy && b.optimization == self.optimization
                && b.matrix_layout_row == self.matrix_layout_row && b.cache_path == self.cache_path
                && b.search_paths@ == self.search_paths@,
    {
        match found {
            None => Err(CompilerOptionError::UnknownCapability(name.to_owned())),
            Some(cap) => {
                let mut b = self;
                b.capabilities.push((name.to_owned(), cap));
                proof {
                    assert(b.capabilities@.drop_last() =~= self.capabilities@);
                }
                Ok(b)
            },
        }
    }

    /// Sets the register space of bindless resources.
    pub fn bindless_space_index(self, index: i32) -> (r: Self)
        ensures
            r == (SlangCompilerBuilder { bindless_space_index: Some(index), ..self }),
    {
        SlangCompilerBuilder { bindless_space_index: Some(index), ..self }
    }

    /// Sets how bindless resources are exposed.
    pub fn bindless_policy(self, policy: BindlessPolicy) -> (r: Self)
        ensures
            r == (SlangCompilerBuilder { bindless_policy: Some(policy), ..self }),
    {
        SlangCompilerBuilder { bindless_policy: Some(policy), ..self }
    }

    /// Sets the optimization level.
    pub fn optimization(self, level: OptimizationLevel) -> (r: Self)
        ensures
            r == (SlangCompilerBuilder { optimization: level, ..self }),
    {
        SlangCompilerBuilder { optimization: level, ..self }
    }

    /// Chooses row-major (`true`) or column-major matrices.
    pub fn matrix_layout_row(self, enable: bool) -> (r: Self)
        ensures
            r == (SlangCompilerBuilder { matrix_layout_row: enable, ..self }),
    {
        SlangCompilerBuilder { matrix_layout_row: enable, ..self }
    }

    /// Sets the directory of the compiled-code cache.
    pub fn cache_path(self, path: &str) -> (r: Self)
        ensures
            r.cache_path matches Some(p) && p@ == path@,
            r.capabilities == self.capabilities,
            r.bindless_space_index == self.bindless_space_index,
            r.bindless_policy == self.bindless_policy,
            r.optimization == self.optimization,
            r.matrix_layout_row == self.matrix_layout_row,
            r.search_paths == self.search_paths,
    {
        SlangCompilerBuilder { cache_path: Some(path.to_owned()), ..self }
    }

    /// Adds a directory to search for modules, after those already added.
    pub fn search_path(self, path: &str) -> (r: Self)
        ensures
            r.search_paths@.len() == self.search_paths@.len() + 1,
            r.search_paths@.drop_last() == self.search_paths@,
            r.search_paths@.last()@ == path@,
            r.capabilities == self.capabilities,
            r.bindless_space_index == self.bindless_space_index,
            r.bindless_policy == self.bindless_policy,
            r.optimization == self.optimization,
            r.matrix_layout_row == self.matrix_layout_row,
            r.cache_path == self.cache_path,
    {
        let mut b = self;
        b.search_paths.push(path.to_owned());
        proof {
            assert(b.search_paths@.drop_last() =~= self.search_paths@);
        }
        b
    }

    /// The bindless configuration the compiler gets: present when a space is
    /// set, with the indexable policy unless another was chosen.
    pub fn bindless_config(&self) -> (r: Option<BindlessConfig>)
        ensures
            match self.bindless_space_index {
                None => r is None,
                Some(space_index) => r == Some(
                    BindlessConfig {
                        space_index,
                        policy: match self.bindless_policy {
                            Some(p) => p,
                            None => BindlessPolicy::Indexable,
                        },
                    },
                ),
            },
    {
        match self.bindless_space_index {
            None => None,
            Some(space_index) => Some(
                BindlessConfig {
                    space_index,
                    policy: match self.bindless_policy {
                        Some(p) => p,
                        None => BindlessPolicy::Indexable,
                    },
                },
            ),
        }
    }
}

/// The hash of the options a compiler session was built with.
#[derive(Debug, Clone, Copy, PartialEq, Eq, Hash)]
pub struct CompilerOptionsHash(pub [u8; 32]);

/// The UTF-8 bytes of the capability names, in the order they were added.
pub open spec fn capability_name_bytes(caps: Seq<(String, CapabilityId)>) -> Seq<Seq<u8>> {
    caps.map_values(|c: (String, CapabilityId)| utf8(c.0@))
}

/// Each name followed by a zero byte, in order.
pub open spec fn zero_terminated(names: Seq<Seq<u8>>) -> Seq<u8>
    decreases names.len(),
{
    if names.len() == 0 {
        Seq::empty()
    } else {
        zero_terminated(names.drop_last()) + names.last() + seq![0u8]
    }
}

/// The bytes hashed into the options key: the key version, the build tag,
/// the number of capabilities and their names in byte order, whether a
/// bindless space is set and which, the optimization level and the matrix
/// layout.
pub open spec fn options_preimage(
    build_tag: Seq<char>,
    sorted_names: Seq<Seq<u8>>,
    bindless_space_index: Option<i32>,
    optimization: OptimizationLevel,
    matrix_layout_row: bool,
) -> Seq<u8> {
    seq![SLANG_CACHE_KEY_VERSION] + utf8(build_tag) + le_u32(sorted_names.len() as u32)
        + zero_terminated(sorted_names) + match bindless_space_index {
        Some(index) => seq![1u8] + le_u32(index as u32),
        None => seq![0u8],
    } + le_u32(optimization_code(optimization)) + seq![if matrix_layout_row { 1u8 } else { 0u8 }]
}

/// The UTF-8 bytes of each capability name, in order.
fn capability_names(caps: &Vec<(String, CapabilityId)>) -> (r: Vec<Vec<u8>>)
    ensures
        byte_views(r@) == capability_name_bytes(caps@),
{
    let mut names: Vec<Vec<u8>> = Vec::with_capacity(caps.len());
    let mut i: usize = 0;
    while i < caps.len()
        invariant
            i <= caps@.len(),
            byte_views(names@) == capability_name_bytes(caps@).take(i as int),
        decreases caps.len() - i,
    {
        let mut bytes: Vec<u8> = Vec::new();
        push_str_bytes(&mut bytes, caps[i].0.as_str());
        let ghost before = names@;
        names.push(bytes);
        proof {
            assert(bytes@ =~= utf8(caps@[i as int].0@));
            assert(byte_views(names@) =~= byte_views(before).push(bytes@));
            assert(capability_name_bytes(caps@).take(i as int + 1) =~= capability_name_bytes(
                caps@,
            ).take(i as int).push(capability_name_bytes(caps@)[i as int]));
        }
        i = i + 1;
    }
    proof {
        assert(capability_name_bytes(caps@).take(i as int) =~= capability_name_bytes(caps@));
    }
    names
}

/// Appends each name followed by a zero byte.
fn push_zero_terminated(pre: &mut Vec<u8>, names: &Vec<Vec<u8>>)
    ensures
        final(pre)@ == old(pre)@ + zero_terminated(byte_views(names@)),
{
    let mut k: usize = 0;
    while k < names.len()
        invariant
            k <= names@.len(),
            pre@ == old(pre)@ + zero_terminated(byte_views(names@).take(k as int)),
        decreases names.len() - k,
    {
        push_bytes(pre, names[k].as_slice());
        pre.push(0u8);
        k = k + 1;
        proof {
            let names_k = byte_views(names@).take(k as int);
            assert(names_k.drop_last() =~= byte_views(names@).take(k as int - 1));
            assert(names_k.last() == names@[k as int - 1]@);
            assert(pre@ =~= old(pre)@ + zero_terminated(names_k));
        }
    }
    proof {
        assert(byte_views(names@).take(k as int) =~= byte_views(names@));
    }
}

impl SlangCompilerBuilder {
    /// The cache key of these options under the global session whose build
    /// tag is `build_tag`.
    pub fn compute_options_hash(&self, build_tag: &str) -> (r: CompilerOptionsHash)
        ensures
            exists|sorted: Seq<Seq<u8>>|
                bytes_sorted(sorted) && sorted.to_multiset() == capability_name_bytes(
                    self.capabilities@,
                ).to_multiset() && r.0@ == blake3_digest(
                    options_preimage(
                        build_tag@,
                        sorted,
                        self.bindless_space_index,
                        self.optimization,
                        self.matrix_layout_row,
                    ),
                ),
    {
        let names = capability_names(&self.capabilities);
        let sorted = sort_byte_strings(names);
        let mut pre: Vec<u8> = Vec::new();
        pre.push(SLANG_CACHE_KEY_VERSION);
        push_str_bytes(&mut pre, build_tag);
        push_u32_le(&mut pre, sorted.len() as u32);
        push_zero_terminated(&mut pre, &sorted);
        match self.bindless_space_index {
            Some(index) => {
                pre.push(1u8);
                push_u32_le(&mut pre, index as u32);
            },
            None => {
                pre.push(0u8);
            },
        }
        push_u32_le(&mut pre, self.optimization.code());
        pre.push(if self.matrix_layout_row {
            1u8
        } else {
            0u8
        });
        proof {
            assert(pre@ =~= options_preimage(
                build_tag@,
                byte_views(sorted@),
                self.bindless_space_index,
                self.optimization,
                self.matrix_layout_row,
            ));
        }
        CompilerOptionsHash(blake3_hash(&pre))
    }
}

} // verus!
