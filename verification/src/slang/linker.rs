//! The linker's bookkeeping: the set of modules and the set of entry points
//! that go into a program, each held in order, and the program's key.

use vstd::prelude::*;
use crate::slang::compiler::{stage_code, CompilerOptionsHash, SlangShaderStage};
use crate::slang::keys::{
    blake3_digest, lemma_str_lt_irreflexive, lemma_str_lt_total, lemma_str_lt_transitive,
    str_less, str_lt,
};
use crate::slang::program::{
    compute_program_key, program_key_preimage, ModuleId, SlangEntrypoint, SlangProgramKey,
};
use crate::sorted_set::{sorted_insert, strictly_sorted, views, SetKey};
use crate::text::str_eq;

verus! {

impl View for ModuleId {
    type V = Seq<char>;

    open spec fn view(&self) -> Seq<char> {
        self.0@
    }
}

impl SetKey for ModuleId {
    /// Module ids are ordered as strings.
    open spec fn key_lt(a: Seq<char>, b: Seq<char>) -> bool {
        str_lt(a, b)
    }

    proof fn lemma_lt_irreflexive(a: Seq<char>) {
        lemma_str_lt_irreflexive(a);
    }

    proof fn lemma_lt_transitive(a: Seq<char>, b: Seq<char>, c: Seq<char>) {
        lemma_str_lt_transitive(a, b, c);
    }

    proof fn lemma_lt_total(a: Seq<char>, b: Seq<char>) {
        lemma_str_lt_total(a, b);
    }

    fn less(&self, other: &Self) -> (r: bool) {
        str_less(self.as_str(), other.as_str())
    }

    fn same(&self, other: &Self) -> (r: bool) {
        str_eq(self.as_str(), other.as_str())
    }
}

/// Entry points are ordered by stage, then name, then module.
pub open spec fn entrypoint_lt(
    a: (Seq<char>, Seq<char>, SlangShaderStage),
    b: (Seq<char>, Seq<char>, SlangShaderStage),
) -> bool {
    ||| stage_code(a.2) < stage_code(b.2)
    ||| a.2 == b.2 && str_lt(a.1, b.1)
    ||| a.2 == b.2 && a.1 == b.1 && str_lt(a.0, b.0)
}

impl SetKey for SlangEntrypoint {
    open spec fn key_lt(
        a: (Seq<char>, Seq<char>, SlangShaderStage),
        b: (Seq<char>, Seq<char>, SlangShaderStage),
    ) -> bool {
        entrypoint_lt(a, b)
    }

    proof fn lemma_lt_irreflexive(a: (Seq<char>, Seq<char>, SlangShaderStage)) {
        lemma_str_lt_irreflexive(a.0);
        lemma_str_lt_irreflexive(a.1);
    }

    proof fn lemma_lt_transitive(
        a: (Seq<char>, Seq<char>, SlangShaderStage),
        b: (Seq<char>, Seq<char>, SlangShaderStage),
        c: (Seq<char>, Seq<char>, SlangShaderStage),
    ) {
        if a.2 == b.2 && b.2 == c.2 {
            if str_lt(a.1, b.1) && str_lt(b.1, c.1) {
                lemma_str_lt_transitive(a.1, b.1, c.1);
            }
            if a.1 == b.1 && b.1 == c.1 && str_lt(a.0, b.0) && str_lt(b.0, c.0) {
                lemma_str_lt_transitive(a.0, b.0, c.0);
            }
        }
    }

    proof fn lemma_lt_total(
        a: (Seq<char>, Seq<char>, SlangShaderStage),
        b: (Seq<char>, Seq<char>, SlangShaderStage),
    ) {
        lemma_str_lt_total(a.0, b.0);
        lemma_str_lt_total(a.1, b.1);
    }

    fn less(&self, other: &Self) -> (r: bool) {
        let sa = self.stage().code();
        let sb = other.stage().code();
        if sa != sb {
            return sa < sb;
        }
        if str_less(self.name(), other.name()) {
            return true;
        }
        if !str_eq(self.name(), other.name()) {
            return false;
        }
        str_less(self.module_id().as_str(), other.module_id().as_str())
    }

    fn same(&self, other: &Self) -> (r: bool) {
        self.same_as(other)
    }
}

/// Why linking was refused.
#[derive(Debug, Clone, PartialEq, Eq)]
pub enum LinkError {
    /// The compiler has not loaded the module of this id.
    ModuleNotLoaded(String),
    /// No entry point was added.
    NoEntrypoints,
}

/// The modules and entry points that go into a program, each set held in
/// order without repeats.
#[derive(Debug)]
pub struct SlangLinker {
    modules: Vec<ModuleId>,
    entrypoints: Vec<SlangEntrypoint>,
}

/// The entry points of `list` of stage `stage`, in order.
pub open spec fn of_stage(list: Seq<SlangEntrypoint>, stage: SlangShaderStage) -> Seq<SlangEntrypoint>
    decreases list.len(),
{
    if list.len() == 0 {
        list
    } else if list.last().stage_spec() == stage {
        of_stage(list.drop_last(), stage).push(list.last())
    } else {
        of_stage(list.drop_last(), stage)
    }
}

impl SlangLinker {
    #[verifier::type_invariant]
    spec fn sets_sorted(self) -> bool {
        &&& strictly_sorted::<ModuleId>(views(self.modules@))
        &&& strictly_sorted::<SlangEntrypoint>(views(self.entrypoints@))
    }

    /// The modules, in order.
    pub closed spec fn module_list(&self) -> Seq<ModuleId> {
        self.modules@
    }

    /// The entry points, in order.
    pub closed spec fn entrypoint_list(&self) -> Seq<SlangEntrypoint> {
        self.entrypoints@
    }

    /// A linker with no module and no entry point.
    pub fn new() -> (r: Self)
        ensures
            r.module_list().len() == 0,
            r.entrypoint_list().len() == 0,
    {
        SlangLinker { modules: Vec::new(), entrypoints: Vec::new() }
    }

    /// The modules, in order; no two have the same id.
    pub fn modules(&self) -> (r: &Vec<ModuleId>)
        ensures
            r@ == self.module_list(),
            strictly_sorted::<ModuleId>(views(r@)),
    {
        proof {
            use_type_invariant(self);
        }
        &self.modules
    }

    /// The entry points, in order; no two are the same.
    pub fn entrypoints(&self) -> (r: &Vec<SlangEntrypoint>)
        ensures
            r@ == self.entrypoint_list(),
            strictly_sorted::<SlangEntrypoint>(views(r@)),
    {
        proof {
            use_type_invariant(self);
        }
        &self.entrypoints
    }

    /// Adds the module `id`, which the compiler must have loaded (`loaded`).
    pub fn add_module(self, id: &ModuleId, loaded: bool) -> (r: Result<Self, LinkError>)
        ensures
            !loaded ==> (r matches Err(LinkError::ModuleNotLoaded(name)) && name@ == id@),
            loaded ==> (r matches Ok(l) && views(l.module_list()).to_set() == views(
                self.module_list(),
            ).to_set().insert(id@) && views(l.entrypoint_list()) == views(self.entrypoint_list())),
    {
        proof {
            use_type_invariant(&self);
        }
        if !loaded {
            return Err(LinkError::ModuleNotLoaded(id.0.clone()));
        }
        let mut modules = self.modules;
        sorted_insert(&mut modules, id.duplicate());
        Ok(SlangLinker { modules, entrypoints: self.entrypoints })
    }

    /// Adds the module `id` and each entry point of `list`.
    fn add_listed(self, id: &ModuleId, list: &Vec<SlangEntrypoint>) -> (r: Self)
        ensures
            views(r.module_list()).to_set() == views(self.module_list()).to_set().insert(id@),
            views(r.entrypoint_list()).to_set() == views(self.entrypoint_list()).to_set().union(
                views(list@).to_set(),
            ),
    {
        proof {
            use_type_invariant(&self);
        }
        let mut modules = self.modules;
        sorted_insert(&mut modules, id.duplicate());
        let mut entrypoints = self.entrypoints;
        let ghost start = views(entrypoints@).to_set();
        let mut i: usize = 0;
        while i < list.len()
            invariant
                i <= list@.len(),
                strictly_sorted::<SlangEntrypoint>(views(entrypoints@)),
                views(entrypoints@).to_set() == start.union(views(list@.take(i as int)).to_set()),
            decreases list.len() - i,
        {
            sorted_insert(&mut entrypoints, list[i].duplicate());
            proof {
                assert(views(list@.take(i as int + 1)) =~= views(list@.take(i as int)).push(
                    list@[i as int]@,
                ));
                assert(views(list@.take(i as int + 1)).to_set() =~= views(
                    list@.take(i as int),
                ).to_set().insert(list@[i as int]@)) by {
                    views(list@.take(i as int)).lemma_push_to_set_commute(list@[i as int]@);
                }
                assert(views(entrypoints@).to_set() =~= start.union(
                    views(list@.take(i as int + 1)).to_set(),
                ));
            }
            i = i + 1;
        }
        proof {
            assert(list@.take(i as int) =~= list@);
        }
        SlangLinker { modules, entrypoints }
    }

    /// Adds the module `id` and its entry points of stage `stage`;
    /// `module_entrypoints` are the module's entry points, `None` when the
    /// compiler has not loaded it.
    pub fn add_stage(
        self,
        id: &ModuleId,
        module_entrypoints: Option<&Vec<SlangEntrypoint>>,
        stage: SlangShaderStage,
    ) -> (r: Result<Self, LinkError>)
        ensures
            match module_entrypoints {
                None => r matches Err(LinkError::ModuleNotLoaded(name)) && name@ == id@,
                Some(list) => r matches Ok(l) && views(l.module_list()).to_set() == views(
                    self.module_list(),
                ).to_set().insert(id@) && views(l.entrypoint_list()).to_set() == views(
                    self.entrypoint_list(),
                ).to_set().union(views(of_stage(list@, stage)).to_set()),
            },
    {
        let list = match module_entrypoints {
            None => return Err(LinkError::ModuleNotLoaded(id.0.clone())),
            Some(list) => list,
        };
        let mut chosen: Vec<SlangEntrypoint> = Vec::new();
        let mut i: usize = 0;
        while i < list.len()
            invariant
                i <= list@.len(),
                views(chosen@) == views(of_stage(list@.take(i as int), stage)),
            decreases list.len() - i,
        {
            proof {
                assert(list@.take(i as int + 1).drop_last() =~= list@.take(i as int));
            }
            if list[i].stage() == stage {
                chosen.push(list[i].duplicate());
                proof {
                    let prev = of_stage(list@.take(i as int), stage);
                    assert(list@.take(i as int + 1).last() == list@[i as int]);
                    assert(of_stage(list@.take(i as int + 1), stage) == prev.push(list@[i as int]));
                    assert(views(prev.push(list@[i as int])) =~= views(prev).push(list@[i as int]@));
                    assert(views(chosen@) =~= views(of_stage(list@.take(i as int + 1), stage)));
                }
            }
            i = i + 1;
        }
        proof {
            assert(list@.take(i as int) =~= list@);
        }
        Ok(self.add_listed(id, &chosen))
    }

    /// Adds the module `id` and all its entry points; `module_entrypoints`
    /// are the module's entry points, `None` when the compiler has not
    /// loaded it.
    pub fn add_all_entrypoints(self, id: &ModuleId, module_entrypoints: Option<&Vec<SlangEntrypoint>>) -> (r: Result<
        Self,
        LinkError,
    >)
        ensures
            match module_entrypoints {
                None => r matches Err(LinkError::ModuleNotLoaded(name)) && name@ == id@,
                Some(list) => r matches Ok(l) && views(l.module_list()).to_set() == views(
                    self.module_list(),
                ).to_set().insert(id@) && views(l.entrypoint_list()).to_set() == views(
                    self.entrypoint_list(),
                ).to_set().union(views(list@).to_set()),
            },
    {
        match module_entrypoints {
            None => Err(LinkError::ModuleNotLoaded(id.0.clone())),
            Some(list) => Ok(self.add_listed(id, list)),
        }
    }

    /// Adds `entrypoint` and its module, which the compiler must have loaded
    /// (`loaded`).
    pub fn add_entrypoint(self, entrypoint: SlangEntrypoint, loaded: bool) -> (r: Result<
        Self,
        LinkError,
    >)
        ensures
            !loaded ==> (r matches Err(LinkError::ModuleNotLoaded(name)) && name@
                == entrypoint.module_spec()@),
            loaded ==> (r matches Ok(l) && views(l.module_list()).to_set() == views(
                self.module_list(),
            ).to_set().insert(entrypoint.module_spec()@) && views(l.entrypoint_list()).to_set()
                == views(self.entrypoint_list()).to_set().insert(entrypoint@)),
    {
        proof {
            use_type_invariant(&self);
        }
        if !loaded {
            return Err(LinkError::ModuleNotLoaded(entrypoint.module_id().0.clone()));
        }
        let mut modules = self.modules;
        sorted_insert(&mut modules, entrypoint.module_id().duplicate());
        let mut entrypoints = self.entrypoints;
        sorted_insert(&mut entrypoints, entrypoint);
        Ok(SlangLinker { modules, entrypoints })
    }

    /// The key of the program linked from the modules and entry points, in
    /// their order, under the compiler options `options_hash`;
    /// `content_hashes` gives each module's content hash where the compiler
    /// knows it. At least one entry point is needed.
    pub fn program_key(
        &self,
        options_hash: &CompilerOptionsHash,
        content_hashes: &Vec<Option<[u8; 32]>>,
    ) -> (r: Result<SlangProgramKey, LinkError>)
        requires
            content_hashes@.len() == self.module_list().len(),
        ensures
            self.entrypoint_list().len() == 0 ==> r == Err::<SlangProgramKey, LinkError>(
                LinkError::NoEntrypoints,
            ),
            self.entrypoint_list().len() > 0 ==> (r matches Ok(key) && key.0@ == blake3_digest(
                program_key_preimage(
                    options_hash.0@,
                    Seq::new(
                        self.module_list().len(),
                        |i: int| (self.module_list()[i], content_hashes@[i]),
                    ),
                    self.entrypoint_list(),
                ),
            )),
    {
        if self.entrypoints.len() == 0 {
            return Err(LinkError::NoEntrypoints);
        }
        let mut modules: Vec<(ModuleId, Option<[u8; 32]>)> = Vec::with_capacity(self.modules.len());
        let mut i: usize = 0;
        while i < self.modules.len()
            invariant
                i <= self.modules@.len(),
                content_hashes@.len() == self.modules@.len(),
                modules@ == Seq::new(i as nat, |k: int| (self.modules@[k], content_hashes@[k])),
            decreases self.modules.len() - i,
        {
            modules.push((self.modules[i].duplicate(), content_hashes[i]));
            i = i + 1;
            proof {
                assert(modules@ =~= Seq::new(
                    i as nat,
                    |k: int| (self.modules@[k], content_hashes@[k]),
                ));
            }
        }
        Ok(compute_program_key(options_hash, &modules, &self.entrypoints))
    }
}

} // verus!
