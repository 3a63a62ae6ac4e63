//! The context of a compilation: the module under construction and what is
//! known about it.

use std::collections::HashMap;
use vstd::prelude::*;

use crate::builder::empty_module;
use crate::builder::module_of;
use crate::builder::parses;
use crate::builder::AddressingModel;
use crate::builder::Capability;
use crate::builder::MemoryModel;
use crate::builder::ModuleState;
use crate::builder::StorageClass;
use crate::builder::CAPABILITIES;
use crate::builder::DEBUGS;
use crate::builder::DEFAULT_VERSION;
use crate::builder::EXT_INST_IMPORTS;
use crate::builder::MEMORY_MODEL;
use crate::cache::ConstCache;
use crate::cache::SpirvTy;
use crate::cache::SpirvValue;
use crate::cache::TyCache;
use crate::constant::lemma_integer_as_single;
use crate::constant::lower_constant;
use crate::constant::ConstFloat;
use crate::constant::ConstInt;
use crate::constant::Constants;
use crate::constant::SpirvConstVal;
use crate::layout::discrs_of;
use crate::layout::EnumLayout;
use crate::lower::lemma_lower_grew;
use crate::lower::lower;
use crate::lower::name_definition;
use crate::lower::Lowering;
use crate::lower::Names;
use crate::mono::lemma_monomorphic_is_fixed;
use crate::mono::monomorphic;
use crate::mono::params_below;
use crate::mono::subst;
use crate::mono::MirContext;
use crate::single::lemma_truncated_is_integer;
use crate::support::supported;
use crate::ty::DefId;
use crate::ty::FloatTy;
use crate::ty::Mutability;
use crate::ty::Ty;
use crate::ty::TyView;
use crate::words::instruction;
use crate::words::le_bytes;
use crate::words::string_words;
use crate::words::words_to_bytes;
use crate::words::OP_CAPABILITY;
use crate::words::OP_EXT_INST_IMPORT;
use crate::words::OP_MEMORY_MODEL;

verus! {

/// An attribute of an item, as written.
#[derive(Debug)]
pub struct Attribute {
    pub text: String,
}

/// A node of the local crate.
#[derive(Debug)]
pub enum HirNode {
    Item { name: String, attrs: Vec<Attribute> },
    Other { name: String },
}

impl HirNode {
    /// The name of the node.
    pub open spec fn spec_name(&self) -> Seq<char> {
        match self {
            HirNode::Item { name, .. } => name@,
            HirNode::Other { name } => name@,
        }
    }
}

/// What is known of the program: the definitions of the local crate, by their
/// keys, and the layouts of the enumerations that have a discriminant beside
/// their variants.
#[derive(Debug)]
pub struct TyCtxt {
    pub nodes: HashMap<u64, HirNode>,
    pub layouts: Vec<EnumLayout>,
}

/// A SPIR-V function, by its id.
#[derive(Clone, Copy, Debug, PartialEq, Eq, Structural)]
pub struct SpirvFn(pub u32);

/// A function that the target provides, by its id.
#[derive(Clone, Copy, Debug, PartialEq, Eq, Structural)]
pub struct Intrinsic(pub u32);

/// What a call of a function becomes.
#[derive(Clone, Copy, Debug, PartialEq, Eq, Structural)]
pub enum SpirvFunctionCall {
    Function(SpirvFn),
    Intrinsic(Intrinsic),
}

/// The context of a compilation.
pub struct SpirvCtx {
    pub tcx: TyCtxt,
    pub builder: rspirv::mr::Builder,
    pub ty_cache: TyCache,
    pub const_cache: ConstCache,
    pub forward_fns: HashMap<u64, SpirvFn>,
    pub intrinsic_fns: HashMap<u64, Intrinsic>,
    pub debug_symbols: bool,
    pub glsl_ext_id: u32,
}

impl SpirvCtx {
    /// The caches are maps, and the module has all its sections and can be
    /// written out.
    pub open spec fn wf(&self) -> bool {
        &&& self.ty_cache.wf()
        &&& self.const_cache.wf()
        &&& module_of(self.builder).wf()
    }

    /// What lowering reads.
    pub open spec fn names(&self) -> Names {
        Names {
            debug_symbols: self.debug_symbols,
            local: self.tcx.nodes@.map_values(|node: HirNode| node.spec_name()),
            discrs: discrs_of(self.tcx.layouts@),
        }
    }

    /// What lowering changes.
    pub open spec fn lowering(&self) -> Lowering {
        Lowering { module: module_of(self.builder), cache: self.ty_cache@ }
    }

    /// Everything but the module and the types lowered so far is as in `other`.
    pub open spec fn same_but_lowering(&self, other: &SpirvCtx) -> bool {
        &&& self.tcx == other.tcx
        &&& self.const_cache == other.const_cache
        &&& self.forward_fns == other.forward_fns
        &&& self.intrinsic_fns == other.intrinsic_fns
        &&& self.debug_symbols == other.debug_symbols
        &&& self.glsl_ext_id == other.glsl_ext_id
    }

    /// Everything but the module, the types lowered and the constants emitted so
    /// far is as in `other`.
    pub open spec fn same_but_emission(&self, other: &SpirvCtx) -> bool {
        &&& self.tcx == other.tcx
        &&& self.forward_fns == other.forward_fns
        &&& self.intrinsic_fns == other.intrinsic_fns
        &&& self.debug_symbols == other.debug_symbols
        &&& self.glsl_ext_id == other.glsl_ext_id
    }

    /// Names the target of `id` after a definition, if the definition is local
    /// and names are emitted.
    pub fn name_from_def_id(&mut self, def_id: DefId, id: u32)
        requires
            old(self).wf(),
        ensures
            final(self).wf(),
            final(self).same_but_lowering(old(self)),
            final(self).ty_cache == old(self).ty_cache,
            module_of(final(self).builder) == name_definition(
                old(self).names(),
                module_of(old(self).builder),
                def_id,
                id,
            ),
    {
        broadcast use vstd::std_specs::hash::group_hash_axioms;

        if let Some(node) = self.tcx.nodes.get(&def_id.key()) {
            if self.debug_symbols {
                match node {
                    HirNode::Item { name, .. } => {
                        crate::builder::name(&mut self.builder, id, name.as_str());
                    },
                    HirNode::Other { name } => {
                        crate::builder::name(&mut self.builder, id, name.as_str());
                    },
                }
            }
        }
    }

    /// Names the target of `id`, if names are emitted.
    pub fn name_from_str(&mut self, name: &str, id: u32)
        requires
            old(self).wf(),
        ensures
            final(self).wf(),
            final(self).same_but_lowering(old(self)),
            final(self).ty_cache == old(self).ty_cache,
            module_of(final(self).builder) == if old(self).debug_symbols {
                module_of(old(self).builder).extend(
                    DEBUGS,
                    seq![crate::builder::name_instruction(id, name@)],
                )
            } else {
                module_of(old(self).builder)
            },
    {
        if self.debug_symbols {
            crate::builder::name(&mut self.builder, id, name);
        }
    }

    /// What emitting constants changes.
    pub open spec fn constants(&self) -> Constants {
        Constants { lowering: self.lowering(), cache: self.const_cache@ }
    }

    /// The SPIR-V type of a type. The types of `mtx` stand in for its type
    /// parameters. What is left must be a type without type parameters that
    /// lowering has an answer for, and the ids must suffice. The storage class
    /// has no influence.
    pub fn to_ty(&mut self, ty: &Ty, mtx: &MirContext, storage_class: StorageClass) -> (spirv_ty:
        SpirvTy)
        requires
            old(self).wf(),
            params_below(ty@, mtx.substs@.len() as int),
            monomorphic(subst(ty@, mtx.args())),
            supported(old(self).names().discrs, subst(ty@, mtx.args())),
            lower(
                old(self).names(),
                old(self).lowering(),
                subst(ty@, mtx.args()),
            ).0.module.next_id <= u32::MAX,
        ensures
            final(self).wf(),
            final(self).same_but_lowering(old(self)),
            (final(self).lowering(), spirv_ty.word) == lower(
                old(self).names(),
                old(self).lowering(),
                subst(ty@, mtx.args()),
            ),
    {
        let _ = storage_class;
        let mono = mtx.monomorphize(ty);
        self.lower_ty(&mono)
    }

    /// The SPIR-V type of the mutable pointer to a type, as [`Self::to_ty`]
    /// gives it.
    pub fn to_ty_as_ptr(&mut self, ty: &Ty, mtx: &MirContext, storage_class: StorageClass) -> (
        spirv_ty: SpirvTy)
        requires
            old(self).wf(),
            params_below(ty@, mtx.substs@.len() as int),
            monomorphic(subst(ty@, mtx.args())),
            supported(old(self).names().discrs, subst(ty@, mtx.args())),
            lower(
                old(self).names(),
                old(self).lowering(),
                mut_ptr(subst(ty@, mtx.args())),
            ).0.module.next_id <= u32::MAX,
        ensures
            final(self).wf(),
            final(self).same_but_lowering(old(self)),
            (final(self).lowering(), spirv_ty.word) == lower(
                old(self).names(),
                old(self).lowering(),
                mut_ptr(subst(ty@, mtx.args())),
            ),
    {
        let ty_ptr = Ty::RawPtr { ty: Box::new(ty.clone()), mutbl: Mutability::Mutable };
        self.to_ty(&ty_ptr, mtx, storage_class)
    }

    /// The SPIR-V value of a constant. The constant must be one that can be
    /// emitted, and the ids must suffice.
    pub fn constant(&mut self, val: SpirvConstVal, mtx: &MirContext) -> (spirv_val: SpirvValue)
        requires
            old(self).wf(),
            old(self).const_cache@.contains_key(val) || val.supported(),
            lower_constant(
                old(self).names(),
                old(self).constants(),
                val,
            ).0.lowering.module.next_id <= u32::MAX,
        ensures
            final(self).wf(),
            final(self).same_but_emission(old(self)),
            (final(self).constants(), spirv_val.0) == lower_constant(
                old(self).names(),
                old(self).constants(),
                val,
            ),
            old(self).const_cache@.contains_key(val) ==> *final(self) == *old(self) && spirv_val.0
                == old(self).const_cache@[val],
            final(self).const_cache@.contains_key(val),
            final(self).const_cache@[val] == spirv_val.0,
    {
        if let Some(found) = self.const_cache.get(val) {
            return found;
        }
        proof {
            lemma_lower_grew(self.names(), self.lowering(), val.ty());
            lemma_monomorphic_is_fixed(val.ty(), mtx.args());
        }
        let spirv_val = match val {
            SpirvConstVal::Integer(const_int) => {
                let ty = const_int.int_type();
                let spirv_ty = self.to_ty(&ty, mtx, StorageClass::Function);
                crate::builder::constant_u32(
                    &mut self.builder,
                    spirv_ty.word,
                    const_int.low_word(),
                )
            },
            SpirvConstVal::Float(ConstFloat::F32(bits)) => {
                let value: u32 = crate::single::truncate(bits).unwrap();
                proof {
                    lemma_truncated_is_integer(bits);
                }
                let spirv_ty = self.to_ty(&Ty::Float(FloatTy::F32), mtx, StorageClass::Function);
                crate::builder::constant_f32(&mut self.builder, spirv_ty.word, value)
            },
            SpirvConstVal::Float(ConstFloat::F64(_)) => 0,
        };
        let spirv_expr = SpirvValue(spirv_val);
        self.const_cache.insert(val, spirv_expr);
        spirv_expr
    }

    /// The SPIR-V value of an unsigned 32-bit constant.
    pub fn constant_u32(&mut self, value: u32, mtx: &MirContext) -> (spirv_val: SpirvValue)
        requires
            old(self).wf(),
            lower_constant(
                old(self).names(),
                old(self).constants(),
                SpirvConstVal::Integer(ConstInt::U32(value)),
            ).0.lowering.module.next_id <= u32::MAX,
        ensures
            final(self).wf(),
            final(self).same_but_emission(old(self)),
            (final(self).constants(), spirv_val.0) == lower_constant(
                old(self).names(),
                old(self).constants(),
                SpirvConstVal::Integer(ConstInt::U32(value)),
            ),
    {
        self.constant(SpirvConstVal::Integer(ConstInt::U32(value)), mtx)
    }

    /// The SPIR-V value of the single precision constant that is made of the
    /// IEEE 754 bits of a number by [`ConstFloat::from_u128`], which reads them as
    /// an integer: not the number with these bits, but the one nearest to that
    /// integer. There is none for the bits of negative numbers.
    pub fn constant_f32(&mut self, bits: u32, mtx: &MirContext) -> (spirv_val: SpirvValue)
        requires
            old(self).wf(),
            bits < 0x7fff_ffc0 || old(self).const_cache@.contains_key(single_from_bits(bits)),
            lower_constant(
                old(self).names(),
                old(self).constants(),
                single_from_bits(bits),
            ).0.lowering.module.next_id <= u32::MAX,
        ensures
            final(self).wf(),
            final(self).same_but_emission(old(self)),
            (final(self).constants(), spirv_val.0) == lower_constant(
                old(self).names(),
                old(self).constants(),
                single_from_bits(bits),
            ),
            old(self).const_cache@.contains_key(single_from_bits(bits)) ==> *final(self) == *old(
                self,
            ) && spirv_val.0 == old(self).const_cache@[single_from_bits(bits)],
    {
        proof {
            lemma_integer_as_single(bits as u128);
        }
        let val = SpirvConstVal::Float(ConstFloat::from_u128(bits as u128, FloatTy::F32));
        self.constant(val, mtx)
    }

    /// What a call of a function becomes: a SPIR-V function if the definition
    /// has one, else an intrinsic if it has one.
    pub fn get_function_call(&self, def_id: DefId) -> (call: Option<SpirvFunctionCall>)
        ensures
            call == if self.forward_fns@.contains_key(def_id.key()) {
                Some(SpirvFunctionCall::Function(self.forward_fns@[def_id.key()]))
            } else if self.intrinsic_fns@.contains_key(def_id.key()) {
                Some(SpirvFunctionCall::Intrinsic(self.intrinsic_fns@[def_id.key()]))
            } else {
                None
            },
    {
        broadcast use vstd::std_specs::hash::group_hash_axioms;

        match self.forward_fns.get(&def_id.key()) {
            Some(spirv_fn) => Some(SpirvFunctionCall::Function(*spirv_fn)),
            None => match self.intrinsic_fns.get(&def_id.key()) {
                Some(id) => Some(SpirvFunctionCall::Intrinsic(*id)),
                None => None,
            },
        }
    }

    /// The attributes of a definition, if it is an item of the local crate.
    pub fn attrs_from_def_id(&self, def_id: DefId) -> (attrs: Option<&[Attribute]>)
        ensures
            match attrs {
                Some(found) => {
                    &&& self.tcx.nodes@.contains_key(def_id.key())
                    &&& self.tcx.nodes@[def_id.key()] matches HirNode::Item { attrs: written, .. }
                        && found@ == written@
                },
                None => !(self.tcx.nodes@.contains_key(def_id.key())
                    && self.tcx.nodes@[def_id.key()] is Item),
            },
    {
        broadcast use vstd::std_specs::hash::group_hash_axioms;

        match self.tcx.nodes.get(&def_id.key()) {
            Some(HirNode::Item { attrs, .. }) => Some(attrs.as_slice()),
            _ => None,
        }
    }

    /// A context around a module that declares the shader capability, imports
    /// the extended instructions of GLSL and uses the logical addressing model
    /// with the memory model of GLSL.
    pub fn new(tcx: TyCtxt) -> (ctx: SpirvCtx)
        ensures
            ctx.wf(),
            ctx.tcx == tcx,
            ctx.debug_symbols,
            ctx.glsl_ext_id == 1,
            ctx.ty_cache@ == Map::<TyView, u32>::empty(),
            ctx.const_cache@ == Map::<SpirvConstVal, u32>::empty(),
            ctx.forward_fns@ == Map::<u64, SpirvFn>::empty(),
            ctx.intrinsic_fns@ == Map::<u64, Intrinsic>::empty(),
            module_of(ctx.builder) == initial_module(),
    {
        let mut builder = crate::builder::new_builder();
        crate::builder::capability(&mut builder, Capability::Shader);
        let glsl_ext_id: u32 = crate::builder::ext_inst_import(&mut builder, "GLSL.std.450");
        crate::builder::memory_model(&mut builder, AddressingModel::Logical, MemoryModel::Glsl450);
        assert(module_of(builder).sections =~= initial_module().sections);
        SpirvCtx {
            tcx,
            builder,
            ty_cache: TyCache::new(),
            const_cache: ConstCache::new(),
            forward_fns: HashMap::new(),
            intrinsic_fns: HashMap::new(),
            debug_symbols: true,
            glsl_ext_id,
        }
    }

    /// The finished module as bytes, if it is accepted as a SPIR-V binary.
    pub fn build_module(self) -> (result: Result<Vec<u8>, BuildError>)
        requires
            self.wf(),
        ensures
            match result {
                Ok(bytes) => {
                    &&& bytes@ == le_bytes(module_of(self.builder).assembled())
                    &&& parses(bytes@)
                },
                Err(error) => {
                    &&& error == BuildError::Rejected
                    &&& !parses(le_bytes(module_of(self.builder).assembled()))
                },
            },
    {
        let bytes = words_to_bytes(&crate::builder::assemble(self.builder));
        let parsed = crate::builder::parse_bytes(&bytes);
        accept(bytes, parsed)
    }
}

/// Why a module was not finished.
#[derive(Clone, Copy, Debug, PartialEq, Eq, Structural)]
pub enum BuildError {
    /// The bytes are not accepted as a SPIR-V binary.
    Rejected,
}

/// The bytes of a module, if parsing them succeeded.
pub fn accept(bytes: Vec<u8>, parsed: Result<(), rspirv::binary::ParseState>) -> (result: Result<
    Vec<u8>,
    BuildError,
>)
    ensures
        result == match parsed {
            Ok(_) => Ok(bytes),
            Err(_) => Err(BuildError::Rejected),
        },
{
    match parsed {
        Ok(_) => Ok(bytes),
        Err(_) => Err(BuildError::Rejected),
    }
}

/// The single precision constant made of bits that are read as an integer.
pub open spec fn single_from_bits(bits: u32) -> SpirvConstVal {
    SpirvConstVal::Float(ConstFloat::from_u128(bits as u128, FloatTy::F32))
}

/// The mutable pointer to a type.
pub open spec fn mut_ptr(ty: TyView) -> TyView {
    TyView::RawPtr { ty: Box::new(ty), mutbl: Mutability::Mutable }
}

/// The module that a context starts with.
pub open spec fn initial_module() -> ModuleState {
    ModuleState {
        next_id: 2,
        version: DEFAULT_VERSION,
        sections: empty_module().sections.update(
            CAPABILITIES as int,
            seq![instruction(OP_CAPABILITY, seq![Capability::Shader.number()])],
        ).update(
            EXT_INST_IMPORTS as int,
            seq![instruction(OP_EXT_INST_IMPORT, seq![1u32] + string_words("GLSL.std.450"@))],
        ).update(
            MEMORY_MODEL as int,
            seq![
                instruction(
                    OP_MEMORY_MODEL,
                    seq![AddressingModel::Logical.number(), MemoryModel::Glsl450.number()],
                ),
            ],
        ),
        assembles: true,
    }
}

} // verus!
