//! The SPIR-V module under construction.
//!
//! `rspirv::mr::Builder` holds the module. What it holds is described by a
//! [`ModuleState`]; every call into the builder that the library makes stands
//! in this file, with its effect on that description.

use spirv_headers::StorageClass as RawStorageClass;
use vstd::prelude::*;

use crate::single::exponent;
use crate::words::instruction;
use crate::words::string_words;
use crate::words::OP_CAPABILITY;
use crate::words::OP_CONSTANT;
use crate::words::OP_EXT_INST_IMPORT;
use crate::words::OP_MEMBER_NAME;
use crate::words::OP_MEMORY_MODEL;
use crate::words::OP_NAME;
use crate::words::OP_TYPE_BOOL;
use crate::words::OP_TYPE_FLOAT;
use crate::words::OP_TYPE_FUNCTION;
use crate::words::OP_TYPE_INT;
use crate::words::OP_TYPE_POINTER;
use crate::words::OP_TYPE_STRUCT;
use crate::words::OP_TYPE_VECTOR;
use crate::words::OP_TYPE_VOID;

verus! {

/// Positions of the sections of a module, in the order of its logical layout:
/// capabilities, extensions, extended instruction imports, memory model, entry
/// points, execution modes, debug instructions, annotations, types with
/// constants and global variables, functions.
pub const CAPABILITIES: usize = 0;

pub const EXT_INST_IMPORTS: usize = 2;

pub const MEMORY_MODEL: usize = 3;

pub const DEBUGS: usize = 6;

pub const GLOBALS: usize = 8;

pub const SECTION_COUNT: usize = 10;

/// The first word of every SPIR-V binary.
pub const MAGIC_NUMBER: u32 = 0x0723_0203;

/// The generator word that names rspirv.
pub const GENERATOR: u32 = 0x000f_0000;

/// The version word of a builder whose version was never set: SPIR-V 1.3.
pub const DEFAULT_VERSION: u32 = 0x0001_0300;

/// A module under construction: the id that is handed out next, the version
/// word of its header, its sections, each a list of instructions in their
/// binary form, and whether all of it can be written out as words.
#[verifier::ext_equal]
pub struct ModuleState {
    pub next_id: int,
    pub version: u32,
    pub sections: Seq<Seq<Seq<u32>>>,
    pub assembles: bool,
}

impl ModuleState {
    /// The module has all its sections, and can be written out.
    pub open spec fn wf(self) -> bool {
        &&& self.sections.len() == SECTION_COUNT
        &&& self.assembles
    }

    /// The module with `instructions` appended to one section.
    pub open spec fn extend(self, section: usize, instructions: Seq<Seq<u32>>) -> ModuleState {
        ModuleState {
            sections: self.sections.update(
                section as int,
                self.sections[section as int] + instructions,
            ),
            ..self
        }
    }

    /// The module after one id was handed out.
    pub open spec fn take_id(self) -> ModuleState {
        ModuleState { next_id: self.next_id + 1, ..self }
    }

    /// The id that the next instruction with a result gets.
    pub open spec fn fresh(self) -> u32 {
        self.next_id as u32
    }

    /// The module with a type instruction appended, under a fresh id.
    pub open spec fn define_type(self, opcode: u32, operands: Seq<u32>) -> ModuleState {
        self.take_id().extend(
            GLOBALS,
            seq![instruction(opcode, seq![self.fresh()] + operands)],
        )
    }

    /// The module with a constant of one word appended, under a fresh id.
    pub open spec fn define_constant(self, result_type: u32, value: u32) -> ModuleState {
        self.take_id().extend(
            GLOBALS,
            seq![instruction(OP_CONSTANT, seq![result_type, self.fresh(), value])],
        )
    }

    /// All types, constants and global variables.
    pub open spec fn globals(self) -> Seq<Seq<u32>> {
        self.sections[GLOBALS as int]
    }

    /// All debug instructions.
    pub open spec fn debugs(self) -> Seq<Seq<u32>> {
        self.sections[DEBUGS as int]
    }

    /// The words of the finished module: the header, then every instruction,
    /// section by section.
    pub open spec fn assembled(self) -> Seq<u32> {
        seq![MAGIC_NUMBER, self.version, GENERATOR, self.next_id as u32, 0u32]
            + self.sections.flatten().flatten()
    }
}

/// The debug instruction that names the target of an id.
pub open spec fn name_instruction(target: u32, name: Seq<char>) -> Seq<u32> {
    instruction(OP_NAME, seq![target] + string_words(name))
}

/// The debug instruction that names a member of a structure type.
pub open spec fn member_name_instruction(target: u32, member: u32, name: Seq<char>) -> Seq<u32> {
    instruction(OP_MEMBER_NAME, seq![target, member] + string_words(name))
}

/// The storage classes of SPIR-V.
#[derive(Clone, Copy, Debug, PartialEq, Eq, Structural)]
pub enum StorageClass {
    UniformConstant,
    Input,
    Uniform,
    Output,
    Workgroup,
    CrossWorkgroup,
    Private,
    Function,
    Generic,
    PushConstant,
    AtomicCounter,
    Image,
    StorageBuffer,
}

impl StorageClass {
    /// The number that stands for the storage class in an instruction.
    pub open spec fn number(self) -> u32 {
        match self {
            StorageClass::UniformConstant => 0,
            StorageClass::Input => 1,
            StorageClass::Uniform => 2,
            StorageClass::Output => 3,
            StorageClass::Workgroup => 4,
            StorageClass::CrossWorkgroup => 5,
            StorageClass::Private => 6,
            StorageClass::Function => 7,
            StorageClass::Generic => 8,
            StorageClass::PushConstant => 9,
            StorageClass::AtomicCounter => 10,
            StorageClass::Image => 11,
            StorageClass::StorageBuffer => 12,
        }
    }
}

/// The capabilities that the library declares.
#[derive(Clone, Copy, Debug, PartialEq, Eq, Structural)]
pub enum Capability {
    Shader,
}

impl Capability {
    /// The number that stands for the capability in an instruction.
    pub open spec fn number(self) -> u32 {
        match self {
            Capability::Shader => 1,
        }
    }
}

/// The addressing models that the library declares.
#[derive(Clone, Copy, Debug, PartialEq, Eq, Structural)]
pub enum AddressingModel {
    Logical,
}

impl AddressingModel {
    /// The number that stands for the addressing model in an instruction.
    pub open spec fn number(self) -> u32 {
        match self {
            AddressingModel::Logical => 0,
        }
    }
}

/// The memory models that the library declares.
#[derive(Clone, Copy, Debug, PartialEq, Eq, Structural)]
pub enum MemoryModel {
    Glsl450,
}

impl MemoryModel {
    /// The number that stands for the memory model in an instruction.
    pub open spec fn number(self) -> u32 {
        match self {
            MemoryModel::Glsl450 => 1,
        }
    }
}

/// `rspirv::mr::Builder`, opaque: see [`module_of`] for what it holds.
#[verifier::external_type_specification]
#[verifier::external_body]
pub struct ExBuilder(rspirv::mr::Builder);

/// `rspirv::binary::ParseState`, the reason why a binary was not accepted.
#[verifier::external_type_specification]
#[verifier::external_body]
pub struct ExParseState(rspirv::binary::ParseState);

/// The id that a builder hands out next.
pub uninterp spec fn builder_next_id(b: rspirv::mr::Builder) -> u32;

/// The version word that a builder writes into the header.
pub uninterp spec fn builder_version(b: rspirv::mr::Builder) -> u32;

/// What a builder holds, section by section, each instruction (or, in the last
/// section, each finished function) in its binary form.
pub uninterp spec fn builder_sections(b: rspirv::mr::Builder) -> Seq<Seq<Seq<u32>>>;

/// Whether what a builder holds can be written out as words: no operand in it is
/// a 64-bit literal, for which `rspirv` has no binary form.
pub uninterp spec fn builder_assembles(b: rspirv::mr::Builder) -> bool;

/// What a builder holds.
pub open spec fn module_of(b: rspirv::mr::Builder) -> ModuleState {
    ModuleState {
        next_id: builder_next_id(b) as int,
        version: builder_version(b),
        sections: builder_sections(b),
        assembles: builder_assembles(b),
    }
}

/// The module without any instruction.
pub open spec fn empty_module() -> ModuleState {
    ModuleState {
        next_id: 1,
        version: DEFAULT_VERSION,
        sections: Seq::new(SECTION_COUNT as nat, |i: int| Seq::<Seq<u32>>::empty()),
        assembles: true,
    }
}

/// `rspirv::mr::Builder::new`: the builder holds no instruction and hands out
/// ids from one on.
#[verifier::external_body]
pub(crate) fn new_builder() -> (b: rspirv::mr::Builder)
    ensures
        builder_next_id(b) == 1,
        builder_version(b) == DEFAULT_VERSION,
        builder_sections(b) == empty_module().sections,
        builder_assembles(b),
{
    rspirv::mr::Builder::new()
}

/// `Builder::capability`: appends one `OpCapability`.
#[verifier::external_body]
pub(crate) fn capability(b: &mut rspirv::mr::Builder, capability: Capability)
    ensures
        module_of(*final(b)) == module_of(*old(b)).extend(
            CAPABILITIES,
            seq![instruction(OP_CAPABILITY, seq![capability.number()])],
        ),
{
    b.capability(
        match capability {
            Capability::Shader => spirv_headers::Capability::Shader,
        },
    )
}

/// `Builder::ext_inst_import`: appends one `OpExtInstImport` and returns its
/// id. The builder's id counter must not be exhausted.
#[verifier::external_body]
pub(crate) fn ext_inst_import(b: &mut rspirv::mr::Builder, name: &str) -> (id: u32)
    requires
        builder_next_id(*old(b)) < u32::MAX,
    ensures
        id == builder_next_id(*old(b)),
        module_of(*final(b)) == module_of(*old(b)).take_id().extend(
            EXT_INST_IMPORTS,
            seq![instruction(OP_EXT_INST_IMPORT, seq![id] + string_words(name@))],
        ),
{
    b.ext_inst_import(name)
}

/// `Builder::memory_model`: the one `OpMemoryModel` of the module is the given
/// one, whatever stood there before.
#[verifier::external_body]
pub(crate) fn memory_model(
    b: &mut rspirv::mr::Builder,
    addressing: AddressingModel,
    memory: MemoryModel,
)
    ensures
        module_of(*final(b)) == (ModuleState {
            sections: builder_sections(*old(b)).update(
                MEMORY_MODEL as int,
                seq![instruction(OP_MEMORY_MODEL, seq![addressing.number(), memory.number()])],
            ),
            ..module_of(*old(b))
        }),
{
    b.memory_model(
        match addressing {
            AddressingModel::Logical => spirv_headers::AddressingModel::Logical,
        },
        match memory {
            MemoryModel::Glsl450 => spirv_headers::MemoryModel::GLSL450,
        },
    )
}

/// `Builder::type_void`: appends one `OpTypeVoid` and returns its id. The
/// builder's id counter must not be exhausted.
#[verifier::external_body]
pub(crate) fn type_void(b: &mut rspirv::mr::Builder) -> (id: u32)
    requires
        builder_next_id(*old(b)) < u32::MAX,
    ensures
        id == builder_next_id(*old(b)),
        module_of(*final(b)) == module_of(*old(b)).define_type(OP_TYPE_VOID, seq![]),
{
    b.type_void()
}

/// `Builder::type_bool`: appends one `OpTypeBool` and returns its id. The
/// builder's id counter must not be exhausted.
#[verifier::external_body]
pub(crate) fn type_bool(b: &mut rspirv::mr::Builder) -> (id: u32)
    requires
        builder_next_id(*old(b)) < u32::MAX,
    ensures
        id == builder_next_id(*old(b)),
        module_of(*final(b)) == module_of(*old(b)).define_type(OP_TYPE_BOOL, seq![]),
{
    b.type_bool()
}

/// `Builder::type_int`: appends one `OpTypeInt` and returns its id. The
/// builder's id counter must not be exhausted.
#[verifier::external_body]
pub(crate) fn type_int(b: &mut rspirv::mr::Builder, width: u32, signedness: u32) -> (id: u32)
    requires
        builder_next_id(*old(b)) < u32::MAX,
    ensures
        id == builder_next_id(*old(b)),
        module_of(*final(b)) == module_of(*old(b)).define_type(
            OP_TYPE_INT,
            seq![width, signedness],
        ),
{
    b.type_int(width, signedness)
}

/// `Builder::type_float`: appends one `OpTypeFloat` and returns its id. The
/// builder's id counter must not be exhausted.
#[verifier::external_body]
pub(crate) fn type_float(b: &mut rspirv::mr::Builder, width: u32) -> (id: u32)
    requires
        builder_next_id(*old(b)) < u32::MAX,
    ensures
        id == builder_next_id(*old(b)),
        module_of(*final(b)) == module_of(*old(b)).define_type(OP_TYPE_FLOAT, seq![width]),
{
    b.type_float(width)
}

/// `Builder::type_vector`: appends one `OpTypeVector` and returns its id. The
/// builder's id counter must not be exhausted.
#[verifier::external_body]
pub(crate) fn type_vector(
    b: &mut rspirv::mr::Builder,
    component_type: u32,
    component_count: u32,
) -> (id: u32)
    requires
        builder_next_id(*old(b)) < u32::MAX,
    ensures
        id == builder_next_id(*old(b)),
        module_of(*final(b)) == module_of(*old(b)).define_type(
            OP_TYPE_VECTOR,
            seq![component_type, component_count],
        ),
{
    b.type_vector(component_type, component_count)
}

/// `Builder::type_struct`: appends one `OpTypeStruct` and returns its id. The
/// builder's id counter must not be exhausted.
#[verifier::external_body]
pub(crate) fn type_struct(b: &mut rspirv::mr::Builder, field_types: &Vec<u32>) -> (id: u32)
    requires
        builder_next_id(*old(b)) < u32::MAX,
    ensures
        id == builder_next_id(*old(b)),
        module_of(*final(b)) == module_of(*old(b)).define_type(OP_TYPE_STRUCT, field_types@),
{
    b.type_struct(field_types)
}

/// `Builder::type_function`: appends one `OpTypeFunction` and returns its id.
/// The builder's id counter must not be exhausted.
#[verifier::external_body]
pub(crate) fn type_function(
    b: &mut rspirv::mr::Builder,
    return_type: u32,
    parameter_types: &Vec<u32>,
) -> (id: u32)
    requires
        builder_next_id(*old(b)) < u32::MAX,
    ensures
        id == builder_next_id(*old(b)),
        module_of(*final(b)) == module_of(*old(b)).define_type(
            OP_TYPE_FUNCTION,
            seq![return_type] + parameter_types@,
        ),
{
    b.type_function(return_type, parameter_types)
}

/// `Builder::type_pointer`, without an id given: appends one `OpTypePointer`
/// and returns its id. The builder's id counter must not be exhausted.
#[verifier::external_body]
pub(crate) fn type_pointer(
    b: &mut rspirv::mr::Builder,
    class: StorageClass,
    pointee_type: u32,
) -> (id: u32)
    requires
        builder_next_id(*old(b)) < u32::MAX,
    ensures
        id == builder_next_id(*old(b)),
        module_of(*final(b)) == module_of(*old(b)).define_type(
            OP_TYPE_POINTER,
            seq![class.number(), pointee_type],
        ),
{
    b.type_pointer(None, match class {
        StorageClass::UniformConstant => RawStorageClass::UniformConstant,
        StorageClass::Input => RawStorageClass::Input,
        StorageClass::Uniform => RawStorageClass::Uniform,
        StorageClass::Output => RawStorageClass::Output,
        StorageClass::Workgroup => RawStorageClass::Workgroup,
        StorageClass::CrossWorkgroup => RawStorageClass::CrossWorkgroup,
        StorageClass::Private => RawStorageClass::Private,
        StorageClass::Function => RawStorageClass::Function,
        StorageClass::Generic => RawStorageClass::Generic,
        StorageClass::PushConstant => RawStorageClass::PushConstant,
        StorageClass::AtomicCounter => RawStorageClass::AtomicCounter,
        StorageClass::Image => RawStorageClass::Image,
        StorageClass::StorageBuffer => RawStorageClass::StorageBuffer,
    }, pointee_type)
}

/// `Builder::constant_u32`: appends one `OpConstant` whose literal is `value`
/// and returns its id. The builder's id counter must not be exhausted.
#[verifier::external_body]
pub(crate) fn constant_u32(b: &mut rspirv::mr::Builder, result_type: u32, value: u32) -> (id: u32)
    requires
        builder_next_id(*old(b)) < u32::MAX,
    ensures
        id == builder_next_id(*old(b)),
        module_of(*final(b)) == module_of(*old(b)).define_constant(result_type, value),
{
    b.constant_u32(result_type, value)
}

/// `Builder::constant_f32`, on the number whose IEEE 754 bits are `bits`:
/// appends one `OpConstant` whose literal are these bits and returns its id.
/// `rspirv::binary::Decoder::float32` turns the bits, as four bytes, into the
/// number. The builder's id counter must not be exhausted, and the bits must be
/// those of a number, as copying anything else may change its bits.
#[verifier::external_body]
pub(crate) fn constant_f32(b: &mut rspirv::mr::Builder, result_type: u32, bits: u32) -> (id: u32)
    requires
        exponent(bits) < 0xff,
        builder_next_id(*old(b)) < u32::MAX,
    ensures
        id == builder_next_id(*old(b)),
        module_of(*final(b)) == module_of(*old(b)).define_constant(result_type, bits),
{
    let bytes = bits.to_le_bytes();
    let number = rspirv::binary::Decoder::new(&bytes).float32();
    b.constant_f32(result_type, number.expect("four bytes hold one word"))
}

/// `Builder::name`: appends one `OpName` to the debug section.
#[verifier::external_body]
pub(crate) fn name(b: &mut rspirv::mr::Builder, target: u32, name: &str)
    ensures
        module_of(*final(b)) == module_of(*old(b)).extend(
            DEBUGS,
            seq![name_instruction(target, name@)],
        ),
{
    b.name(target, name)
}

/// `Builder::member_name`: appends one `OpMemberName` to the debug section.
#[verifier::external_body]
pub(crate) fn member_name(b: &mut rspirv::mr::Builder, target: u32, member: u32, name: &str)
    ensures
        module_of(*final(b)) == module_of(*old(b)).extend(
            DEBUGS,
            seq![member_name_instruction(target, member, name@)],
        ),
{
    b.member_name(target, member, name)
}

/// `Builder::module` and `rspirv::binary::Assemble::assemble`: the words of the
/// module that the builder holds. A function that was begun and not ended is
/// not part of it. `assemble` has no answer for 64-bit literals.
#[verifier::external_body]
pub(crate) fn assemble(b: rspirv::mr::Builder) -> (words: Vec<u32>)
    requires
        builder_assembles(b),
    ensures
        words@ == module_of(b).assembled(),
{
    rspirv::binary::Assemble::assemble(&b.module())
}

/// Whether `rspirv` accepts a byte stream as a SPIR-V binary.
pub uninterp spec fn parses(bytes: Seq<u8>) -> bool;

/// `rspirv::binary::parse_bytes` into an `rspirv::mr::Loader`: succeeds exactly
/// on the binaries that [`parses`] names, which the bytes alone decide. What an
/// error holds is left unsaid.
#[verifier::external_body]
pub(crate) fn parse_bytes(bytes: &Vec<u8>) -> (result: Result<(), rspirv::binary::ParseState>)
    ensures
        result is Ok <==> parses(bytes@),
{
    rspirv::binary::parse_bytes(bytes, &mut rspirv::mr::Loader::new())
}

} // verus!
