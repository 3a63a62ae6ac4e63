//! Comparing a compute shader with the function that it was compiled from: what
//! the device is asked to do, and how its answer is judged.

use vstd::prelude::*;

use crate::words::low32;

verus! {

/// What came out of one comparison.
#[derive(Clone, Copy, Debug, PartialEq, Eq, Structural)]
pub enum Outcome {
    /// There was nothing to compare.
    Discarded,
    Passed,
    Failed,
}

/// Properties of a kind of memory.
#[derive(Clone, Copy, Debug, PartialEq, Eq, Structural)]
pub struct MemoryProperties {
    pub device_local: bool,
    pub cpu_visible: bool,
    pub coherent: bool,
    pub cpu_cached: bool,
    pub lazily_allocated: bool,
}

impl MemoryProperties {
    /// Memory has all the properties that `wanted` has.
    pub open spec fn spec_contains(self, wanted: MemoryProperties) -> bool {
        &&& wanted.device_local ==> self.device_local
        &&& wanted.cpu_visible ==> self.cpu_visible
        &&& wanted.coherent ==> self.coherent
        &&& wanted.cpu_cached ==> self.cpu_cached
        &&& wanted.lazily_allocated ==> self.lazily_allocated
    }

    /// Whether memory has all the properties that `wanted` has.
    #[verifier::when_used_as_spec(spec_contains)]
    pub fn contains(self, wanted: MemoryProperties) -> (result: bool)
        ensures
            result == self.spec_contains(wanted),
            result ==> (wanted.device_local ==> self.device_local) && (wanted.cpu_visible
                ==> self.cpu_visible) && (wanted.coherent ==> self.coherent) && (wanted.cpu_cached
                ==> self.cpu_cached) && (wanted.lazily_allocated ==> self.lazily_allocated),
            !result ==> (wanted.device_local && !self.device_local) || (wanted.cpu_visible
                && !self.cpu_visible) || (wanted.coherent && !self.coherent) || (wanted.cpu_cached
                && !self.cpu_cached) || (wanted.lazily_allocated && !self.lazily_allocated),
    {
        (!wanted.device_local || self.device_local) && (!wanted.cpu_visible || self.cpu_visible)
            && (!wanted.coherent || self.coherent) && (!wanted.cpu_cached || self.cpu_cached) && (
        !wanted.lazily_allocated || self.lazily_allocated)
    }
}

/// Memory of kind `id` may hold the buffer, and has the wanted properties.
pub open spec fn suits(
    type_mask: u64,
    memory_types: Seq<MemoryProperties>,
    wanted: MemoryProperties,
    id: int,
) -> bool {
    &&& type_mask & (1u64 << (id as u64)) != 0
    &&& memory_types[id].contains(wanted)
}

/// Memory suits a buffer exactly if its bit in the mask is set and it has every
/// property that is wanted.
pub proof fn lemma_suits(
    type_mask: u64,
    memory_types: Seq<MemoryProperties>,
    wanted: MemoryProperties,
    id: u64,
)
    requires
        id < 64,
    ensures
        suits(type_mask, memory_types, wanted, id as int) <==> {
            let has = memory_types[id as int];
            &&& (type_mask >> id) % 2 == 1
            &&& wanted.device_local ==> has.device_local
            &&& wanted.cpu_visible ==> has.cpu_visible
            &&& wanted.coherent ==> has.coherent
            &&& wanted.cpu_cached ==> has.cpu_cached
            &&& wanted.lazily_allocated ==> has.lazily_allocated
        },
{
    assert((type_mask & (1u64 << id) != 0) == ((type_mask >> id) % 2 == 1)) by (bit_vector)
        requires
            id < 64,
    ;
}

/// The first kind of memory that may hold a buffer and has the wanted
/// properties. Bit `i` of `type_mask` says whether kind `i` may hold it, so
/// either there are no more kinds than bits, or a kind with a bit suits.
pub fn select_memory_type(
    type_mask: u64,
    memory_types: &Vec<MemoryProperties>,
    wanted: MemoryProperties,
) -> (id: Option<usize>)
    requires
        memory_types@.len() <= 64 || exists|i: int|
            0 <= i < 64 && suits(type_mask, memory_types@, wanted, i),
    ensures
        match id {
            Some(found) => {
                &&& found < memory_types@.len()
                &&& suits(type_mask, memory_types@, wanted, found as int)
                &&& forall|i: int|
                    0 <= i < found ==> !suits(type_mask, memory_types@, wanted, i)
            },
            None => forall|i: int|
                0 <= i < memory_types@.len() ==> !suits(type_mask, memory_types@, wanted, i),
        },
{
    let mut id: usize = 0;
    while id < memory_types.len()
        invariant
            id <= memory_types@.len(),
            memory_types@.len() <= 64 || exists|i: int|
                0 <= i < 64 && suits(type_mask, memory_types@, wanted, i),
            forall|i: int| 0 <= i < id ==> !suits(type_mask, memory_types@, wanted, i),
        decreases memory_types@.len() - id,
    {
        if type_mask & (1u64 << (id as u64)) != 0 && memory_types[id].contains(wanted) {
            return Some(id);
        }
        id = id + 1;
    }
    None
}

/// The two buffers of a comparison.
#[derive(Clone, Copy, Debug, PartialEq, Eq, Structural)]
pub enum Role {
    /// Where the numbers are put and the results are read.
    Staging,
    /// Where the shader works.
    Device,
}

/// What a buffer is used for.
#[derive(Clone, Copy, Debug, PartialEq, Eq, Structural)]
pub struct Usage {
    pub transfer_src: bool,
    pub transfer_dst: bool,
    pub storage: bool,
}

/// How a buffer is to be made.
#[derive(Clone, Copy, Debug, PartialEq, Eq, Structural)]
pub struct BufferPlan {
    pub properties: MemoryProperties,
    pub usage: Usage,
    pub size: u64,
}

/// The stages of the pipeline that a barrier stands between.
#[derive(Clone, Copy, Debug, PartialEq, Eq, Structural)]
pub enum Stage {
    Transfer,
    ComputeShader,
}

/// Ways to access a buffer.
#[derive(Clone, Copy, Debug, PartialEq, Eq, Structural)]
pub struct Access {
    pub transfer_read: bool,
    pub transfer_write: bool,
    pub shader_read: bool,
    pub shader_write: bool,
}

/// A command to the device.
#[derive(Clone, Copy, Debug, PartialEq, Eq, Structural)]
pub enum Command {
    /// Copies bytes, from the start of one buffer to that of the other.
    Copy { src: Role, dst: Role, size: u64 },
    /// Orders accesses to the device buffer, and makes what came before it seen
    /// by what comes after.
    Barrier { before: Stage, after: Stage, written: Access, allowed: Access },
    BindPipeline,
    BindDescriptorSet,
    /// Runs the shader with this many work groups.
    Dispatch { x: u32, y: u32, z: u32 },
}

/// What the device is asked to do.
#[derive(Debug)]
pub struct Plan {
    pub staging: BufferPlan,
    pub device: BufferPlan,
    pub commands: Vec<Command>,
}

/// The staging buffer: seen by the CPU without flushing, copied from and to.
pub open spec fn staging_plan(size: u64) -> BufferPlan {
    BufferPlan {
        properties: MemoryProperties {
            device_local: false,
            cpu_visible: true,
            coherent: true,
            cpu_cached: false,
            lazily_allocated: false,
        },
        usage: Usage { transfer_src: true, transfer_dst: true, storage: false },
        size,
    }
}

/// The device buffer: local to the device, copied from and to, and open to the
/// shader.
pub open spec fn device_plan(size: u64) -> BufferPlan {
    BufferPlan {
        properties: MemoryProperties {
            device_local: true,
            cpu_visible: false,
            coherent: false,
            cpu_cached: false,
            lazily_allocated: false,
        },
        usage: Usage { transfer_src: true, transfer_dst: true, storage: true },
        size,
    }
}

/// No access.
pub open spec fn no_access() -> Access {
    Access { transfer_read: false, transfer_write: false, shader_read: false, shader_write: false }
}

/// Reading and writing by the shader.
pub open spec fn shader_access() -> Access {
    Access { shader_read: true, shader_write: true, ..no_access() }
}

/// The commands for `count` numbers in `size` bytes: to the device, through the
/// shader with one work group for each number, and back.
pub open spec fn command_list(size: u64, count: u32) -> Seq<Command> {
    seq![
        Command::Copy { src: Role::Staging, dst: Role::Device, size },
        Command::Barrier {
            before: Stage::Transfer,
            after: Stage::ComputeShader,
            written: Access { transfer_write: true, ..no_access() },
            allowed: shader_access(),
        },
        Command::BindPipeline,
        Command::BindDescriptorSet,
        Command::Dispatch { x: count, y: 1, z: 1 },
        Command::Barrier {
            before: Stage::ComputeShader,
            after: Stage::Transfer,
            written: shader_access(),
            allowed: Access { transfer_read: true, ..no_access() },
        },
        Command::Copy { src: Role::Device, dst: Role::Staging, size },
    ]
}

/// What the device is asked to do with `len` numbers of `stride` bytes each;
/// nothing, if there are no numbers. The bytes must be a 64-bit number.
pub fn plan(stride: u64, len: usize) -> (plan: Option<Plan>)
    requires
        stride * len <= u64::MAX,
    ensures
        len == 0 ==> plan is None,
        len > 0 ==> (plan matches Some(made) && {
            &&& made.staging == staging_plan((stride * len) as u64)
            &&& made.device == device_plan((stride * len) as u64)
            &&& made.commands@ == command_list((stride * len) as u64, low32(len as int))
            &&& made.staging.size == stride * len
            &&& made.device.size == stride * len
            &&& made.staging.usage == (Usage {
                transfer_src: true,
                transfer_dst: true,
                storage: false,
            })
            &&& made.device.usage == (Usage {
                transfer_src: true,
                transfer_dst: true,
                storage: true,
            })
            &&& made.staging.properties == (MemoryProperties {
                device_local: false,
                cpu_visible: true,
                coherent: true,
                cpu_cached: false,
                lazily_allocated: false,
            })
            &&& made.device.properties == (MemoryProperties {
                device_local: true,
                cpu_visible: false,
                coherent: false,
                cpu_cached: false,
                lazily_allocated: false,
            })
            &&& made.commands@.len() == 7
            &&& made.commands@[0] == (Command::Copy {
                src: Role::Staging,
                dst: Role::Device,
                size: (stride * len) as u64,
            })
            &&& made.commands@[4] == (Command::Dispatch {
                x: (len as int % 0x1_0000_0000) as u32,
                y: 1,
                z: 1,
            })
            &&& made.commands@[6] == (Command::Copy {
                src: Role::Device,
                dst: Role::Staging,
                size: (stride * len) as u64,
            })
        }),
{
    if len == 0 {
        return None;
    }
    let size: u64 = stride * len as u64;
    let count: u32 = (len as u64 % 0x1_0000_0000) as u32;
    let staging = BufferPlan {
        properties: MemoryProperties {
            device_local: false,
            cpu_visible: true,
            coherent: true,
            cpu_cached: false,
            lazily_allocated: false,
        },
        usage: Usage { transfer_src: true, transfer_dst: true, storage: false },
        size,
    };
    let device = BufferPlan {
        properties: MemoryProperties {
            device_local: true,
            cpu_visible: false,
            coherent: false,
            cpu_cached: false,
            lazily_allocated: false,
        },
        usage: Usage { transfer_src: true, transfer_dst: true, storage: true },
        size,
    };
    let none = Access {
        transfer_read: false,
        transfer_write: false,
        shader_read: false,
        shader_write: false,
    };
    let shader = Access { shader_read: true, shader_write: true, ..none };
    let commands: Vec<Command> = vec![
        Command::Copy { src: Role::Staging, dst: Role::Device, size },
        Command::Barrier {
            before: Stage::Transfer,
            after: Stage::ComputeShader,
            written: Access { transfer_write: true, ..none },
            allowed: shader,
        },
        Command::BindPipeline,
        Command::BindDescriptorSet,
        Command::Dispatch { x: count, y: 1, z: 1 },
        Command::Barrier {
            before: Stage::ComputeShader,
            after: Stage::Transfer,
            written: shader,
            allowed: Access { transfer_read: true, ..none },
        },
        Command::Copy { src: Role::Device, dst: Role::Staging, size },
    ];
    assert(commands@ =~= command_list(size, count));
    Some(Plan { staging, device, commands })
}

/// `cpu` is what the function gives for the numbers, each with its index as an
/// unsigned 32-bit number.
pub open spec fn is_reference<T, F: Fn(u32, T) -> T>(
    numbers: Seq<T>,
    f: F,
    cpu: Seq<T>,
) -> bool {
    &&& cpu.len() == numbers.len()
    &&& forall|i: int|
        0 <= i < numbers.len() ==> call_ensures(
            f,
            (low32(i), #[trigger] numbers[i]),
            cpu[i],
        )
}

/// The function applied to each number and its index.
pub fn reference<T: Copy, F: Fn(u32, T) -> T>(numbers: &Vec<T>, f: &F) -> (cpu: Vec<T>)
    requires
        forall|i: int|
            0 <= i < numbers@.len() ==> call_requires(*f, (low32(i), #[trigger] numbers@[i])),
    ensures
        is_reference(numbers@, *f, cpu@),
        cpu@.len() == numbers@.len(),
        forall|i: int|
            0 <= i < numbers@.len() ==> call_ensures(
                *f,
                ((i % 0x1_0000_0000) as u32, #[trigger] numbers@[i]),
                cpu@[i],
            ),
{
    let mut cpu: Vec<T> = Vec::new();
    let mut index: usize = 0;
    while index < numbers.len()
        invariant
            index <= numbers@.len(),
            cpu@.len() == index,
            forall|i: int|
                0 <= i < numbers@.len() ==> call_requires(*f, (low32(i), #[trigger] numbers@[i])),
            forall|i: int|
                0 <= i < index ==> call_ensures(
                    *f,
                    (low32(i), #[trigger] numbers@[i]),
                    cpu@[i],
                ),
        decreases numbers@.len() - index,
    {
        let small: u32 = (index as u64 % 0x1_0000_0000) as u32;
        let result = f(small, numbers[index]);
        cpu.push(result);
        index = index + 1;
    }
    cpu
}

/// Two lists compare equal (`equal`) or not: they have the same length and `==`
/// holds of each pair, or one of this does not hold.
pub open spec fn compares<T: PartialEq>(a: Seq<T>, b: Seq<T>, equal: bool) -> bool {
    if equal {
        &&& a.len() == b.len()
        &&& forall|i: int|
            0 <= i < a.len() ==> call_ensures(T::eq, (&#[trigger] a[i], &b[i]), true)
    } else {
        ||| a.len() != b.len()
        ||| exists|i: int|
            0 <= i < a.len() && call_ensures(T::eq, (&#[trigger] a[i], &b[i]), false)
    }
}

/// Whether two lists compare equal.
pub fn same_values<T: PartialEq>(a: &Vec<T>, b: &Vec<T>) -> (equal: bool)
    ensures
        compares(a@, b@, equal),
        equal ==> a@.len() == b@.len() && forall|i: int|
            0 <= i < a@.len() ==> call_ensures(T::eq, (&#[trigger] a@[i], &b@[i]), true),
        !equal ==> a@.len() != b@.len() || exists|i: int|
            0 <= i < a@.len() && call_ensures(T::eq, (&#[trigger] a@[i], &b@[i]), false),
{
    if a.len() != b.len() {
        return false;
    }
    let mut i: usize = 0;
    while i < a.len()
        invariant
            i <= a@.len(),
            a@.len() == b@.len(),
            forall|j: int|
                0 <= j < i ==> call_ensures(T::eq, (&#[trigger] a@[j], &b@[j]), true),
        decreases a@.len() - i,
    {
        if !a[i].eq(&b[i]) {
            return false;
        }
        i = i + 1;
    }
    true
}

/// What comes out of a comparison, given what the function gives.
pub open spec fn judged<T: PartialEq>(gpu: Seq<T>, cpu: Seq<T>, outcome: Outcome) -> bool {
    match outcome {
        Outcome::Discarded => false,
        Outcome::Passed => compares(gpu, cpu, true),
        Outcome::Failed => compares(gpu, cpu, false),
    }
}

/// Judges what the device made of the numbers by what the function gives for
/// them. Without numbers there is nothing to judge.
pub fn judge<T: Copy + PartialEq, F: Fn(u32, T) -> T>(
    numbers: &Vec<T>,
    gpu: &Vec<T>,
    f: &F,
) -> (outcome: Outcome)
    requires
        forall|i: int|
            0 <= i < numbers@.len() ==> call_requires(*f, (low32(i), #[trigger] numbers@[i])),
    ensures
        numbers@.len() == 0 ==> outcome == Outcome::Discarded,
        numbers@.len() > 0 ==> exists|cpu: Seq<T>| #[trigger]
            is_reference(numbers@, *f, cpu) && judged(gpu@, cpu, outcome),
        numbers@.len() > 0 ==> outcome != Outcome::Discarded,
        outcome == Outcome::Passed ==> gpu@.len() == numbers@.len(),
        gpu@.len() != numbers@.len() && numbers@.len() > 0 ==> outcome == Outcome::Failed,
{
    if numbers.len() == 0 {
        return Outcome::Discarded;
    }
    let cpu = reference(numbers, f);
    if same_values(gpu, &cpu) {
        assert(judged(gpu@, cpu@, Outcome::Passed));
        Outcome::Passed
    } else {
        assert(judged(gpu@, cpu@, Outcome::Failed));
        Outcome::Failed
    }
}

/// A comparison is judged by the function alone: the numbers passed only if each
/// result of the device equals what the function gives for the number and its
/// index, and failed only if one does not.
pub proof fn lemma_judged_by_function<T: PartialEq, F: Fn(u32, T) -> T>(
    numbers: Seq<T>,
    f: F,
    cpu: Seq<T>,
    gpu: Seq<T>,
    outcome: Outcome,
)
    requires
        is_reference(numbers, f, cpu),
        judged(gpu, cpu, outcome),
    ensures
        forall|i: int|
            0 <= i < numbers.len() ==> call_ensures(
                f,
                ((i % 0x1_0000_0000) as u32, #[trigger] numbers[i]),
                cpu[i],
            ),
        outcome == Outcome::Passed || outcome == Outcome::Failed,
        outcome == Outcome::Passed ==> gpu.len() == numbers.len() && forall|i: int|
            0 <= i < numbers.len() ==> call_ensures(T::eq, (&#[trigger] gpu[i], &cpu[i]), true),
        outcome == Outcome::Failed ==> gpu.len() != numbers.len() || exists|i: int|
            0 <= i < numbers.len() && call_ensures(T::eq, (&#[trigger] gpu[i], &cpu[i]), false),
{
}

/// The bytes of both buffers, and what the accesses to the device buffer so far
/// allow: `unseen` was written and no barrier came since, `allowed` may come.
pub struct DeviceState {
    pub staging: Seq<u8>,
    pub device: Seq<u8>,
    pub unseen: Access,
    pub allowed: Access,
}

/// The first bytes of `dst` replaced by those of `src`.
pub open spec fn overwritten(dst: Seq<u8>, src: Seq<u8>, size: int) -> Seq<u8> {
    src.take(size) + dst.skip(size)
}

/// What a command does, where `kernel` is what the shader makes of the bytes in
/// the device buffer with a given number of work groups. Nothing is known of a
/// command that reads what no barrier has made seen.
pub open spec fn step(
    st: DeviceState,
    command: Command,
    kernel: spec_fn(Seq<u8>, u32) -> Seq<u8>,
) -> Option<DeviceState> {
    match command {
        Command::Copy { src: Role::Staging, dst: Role::Device, size } => {
            if st.allowed.transfer_write && size <= st.staging.len() && size <= st.device.len() {
                Some(
                    DeviceState {
                        device: overwritten(st.device, st.staging, size as int),
                        unseen: Access { transfer_write: true, ..st.unseen },
                        allowed: no_access(),
                        ..st
                    },
                )
            } else {
                None
            }
        },
        Command::Copy { src: Role::Device, dst: Role::Staging, size } => {
            if st.allowed.transfer_read && size <= st.staging.len() && size <= st.device.len() {
                Some(
                    DeviceState { staging: overwritten(st.staging, st.device, size as int), ..st },
                )
            } else {
                None
            }
        },
        Command::Copy { .. } => None,
        Command::Barrier { written, allowed, .. } => {
            if (st.unseen.transfer_write ==> written.transfer_write) && (st.unseen.shader_write
                ==> written.shader_write) {
                Some(DeviceState { unseen: no_access(), allowed, ..st })
            } else {
                None
            }
        },
        Command::BindPipeline => Some(st),
        Command::BindDescriptorSet => Some(st),
        Command::Dispatch { x, .. } => {
            if st.allowed.shader_read && st.allowed.shader_write {
                Some(
                    DeviceState {
                        device: kernel(st.device, x),
                        unseen: Access { shader_write: true, ..st.unseen },
                        allowed: no_access(),
                        ..st
                    },
                )
            } else {
                None
            }
        },
    }
}

/// What commands do one after the other.
pub open spec fn run(
    st: DeviceState,
    commands: Seq<Command>,
    kernel: spec_fn(Seq<u8>, u32) -> Seq<u8>,
) -> Option<DeviceState>
    decreases commands.len(),
{
    if commands.len() == 0 {
        Some(st)
    } else {
        match run(st, commands.drop_last(), kernel) {
            Some(before) => step(before, commands.last(), kernel),
            None => None,
        }
    }
}

/// The plan works out: whatever the device buffer holds, the staging buffer ends
/// up with what the shader makes of the bytes that were put into it, and nothing
/// is read that no barrier has made seen.
pub proof fn lemma_plan_runs_shader(
    input: Seq<u8>,
    device: Seq<u8>,
    count: u32,
    kernel: spec_fn(Seq<u8>, u32) -> Seq<u8>,
)
    requires
        input.len() <= u64::MAX,
        device.len() == input.len(),
        kernel(input, count).len() == input.len(),
    ensures
        ({
            let start = DeviceState {
                staging: input,
                device,
                unseen: no_access(),
                allowed: Access { transfer_write: true, ..no_access() },
            };
            let commands = command_list(input.len() as u64, count);
            run(start, commands, kernel) matches Some(end) && end.staging == kernel(input, count)
        }),
{
    let size = input.len() as u64;
    assert(overwritten(device, input, size as int) =~= input);
    let output = kernel(input, count);
    assert(overwritten(input, output, size as int) =~= output);
    reveal_with_fuel(run, 8);
}

/// A device with both buffers: their bytes, what was written to the device
/// buffer and is not seen yet, what may be done with it next, and what is bound.
pub struct Machine {
    pub staging: Seq<u8>,
    pub device: Seq<u8>,
    pub unseen: Access,
    pub allowed: Access,
    pub pipeline: bool,
    pub descriptors: bool,
}

/// What a command does on a device whose buffers were made as planned. A command
/// is carried out only if the buffers are made for it and large enough, if what
/// it reads was made seen by a barrier between the right stages, and, for the
/// shader, if pipeline and descriptors are bound.
pub open spec fn carry(
    staging: BufferPlan,
    device: BufferPlan,
    st: Machine,
    command: Command,
    kernel: spec_fn(Seq<u8>, u32, u32, u32) -> Seq<u8>,
) -> Option<Machine> {
    match command {
        Command::Copy { src: Role::Staging, dst: Role::Device, size } => {
            if staging.usage.transfer_src && device.usage.transfer_dst && st.allowed.transfer_write
                && size <= st.staging.len() && size <= st.device.len() {
                Some(
                    Machine {
                        device: st.staging.take(size as int) + st.device.skip(size as int),
                        unseen: Access { transfer_write: true, ..st.unseen },
                        allowed: Access {
                            transfer_read: false,
                            transfer_write: false,
                            shader_read: false,
                            shader_write: false,
                        },
                        ..st
                    },
                )
            } else {
                None
            }
        },
        Command::Copy { src: Role::Device, dst: Role::Staging, size } => {
            if device.usage.transfer_src && staging.usage.transfer_dst && st.allowed.transfer_read
                && size <= st.staging.len() && size <= st.device.len() {
                Some(
                    Machine {
                        staging: st.device.take(size as int) + st.staging.skip(size as int),
                        ..st
                    },
                )
            } else {
                None
            }
        },
        Command::Copy { .. } => None,
        Command::Barrier { before, after, written, allowed } => {
            let seen = (st.unseen.transfer_write ==> before == Stage::Transfer
                && written.transfer_write) && (st.unseen.shader_write ==> before
                == Stage::ComputeShader && written.shader_write);
            let fits = if after == Stage::Transfer {
                !allowed.shader_read && !allowed.shader_write
            } else {
                !allowed.transfer_read && !allowed.transfer_write
            };
            if seen && fits {
                Some(
                    Machine {
                        unseen: Access {
                            transfer_read: false,
                            transfer_write: false,
                            shader_read: false,
                            shader_write: false,
                        },
                        allowed,
                        ..st
                    },
                )
            } else {
                None
            }
        },
        Command::BindPipeline => Some(Machine { pipeline: true, ..st }),
        Command::BindDescriptorSet => Some(Machine { descriptors: true, ..st }),
        Command::Dispatch { x, y, z } => {
            if device.usage.storage && st.pipeline && st.descriptors && st.allowed.shader_read
                && st.allowed.shader_write {
                Some(
                    Machine {
                        device: kernel(st.device, x, y, z),
                        unseen: Access { shader_write: true, ..st.unseen },
                        allowed: Access {
                            transfer_read: false,
                            transfer_write: false,
                            shader_read: false,
                            shader_write: false,
                        },
                        ..st
                    },
                )
            } else {
                None
            }
        },
    }
}

/// What commands do one after the other.
pub open spec fn carried_out(
    staging: BufferPlan,
    device: BufferPlan,
    st: Machine,
    commands: Seq<Command>,
    kernel: spec_fn(Seq<u8>, u32, u32, u32) -> Seq<u8>,
) -> Option<Machine>
    decreases commands.len(),
{
    if commands.len() == 0 {
        Some(st)
    } else {
        match carried_out(staging, device, st, commands.drop_last(), kernel) {
            Some(before) => carry(staging, device, before, commands.last(), kernel),
            None => None,
        }
    }
}

/// Buffers that are made as planned, each as large as planned, hold the numbers
/// through the whole run: whatever the device buffer held before, the staging
/// buffer ends up with what the shader makes of the bytes that were put into it,
/// run once for each number.
pub proof fn lemma_planned_buffers_suffice(
    stride: u64,
    len: usize,
    input: Seq<u8>,
    device: Seq<u8>,
    kernel: spec_fn(Seq<u8>, u32, u32, u32) -> Seq<u8>,
)
    requires
        len > 0,
        stride * len <= u64::MAX,
        input.len() == stride * len,
        device.len() == device_plan((stride * len) as u64).size,
        kernel(input, (len as int % 0x1_0000_0000) as u32, 1, 1).len() == input.len(),
    ensures
        staging_plan((stride * len) as u64).size == input.len(),
        device_plan((stride * len) as u64).size == input.len(),
        staging_plan((stride * len) as u64).properties.cpu_visible,
        staging_plan((stride * len) as u64).properties.coherent,
        device_plan((stride * len) as u64).properties.device_local,
        ({
            let size = (stride * len) as u64;
            let start = Machine {
                staging: input,
                device,
                unseen: Access {
                    transfer_read: false,
                    transfer_write: false,
                    shader_read: false,
                    shader_write: false,
                },
                allowed: Access {
                    transfer_read: false,
                    transfer_write: true,
                    shader_read: false,
                    shader_write: false,
                },
                pipeline: false,
                descriptors: false,
            };
            let end = carried_out(
                staging_plan(size),
                device_plan(size),
                start,
                command_list(size, low32(len as int)),
                kernel,
            );
            end is Some && end->0.staging == kernel(
                input,
                (len as int % 0x1_0000_0000) as u32,
                1,
                1,
            )
        }),
{
    let size = (stride * len) as u64;
    let output = kernel(input, low32(len as int), 1, 1);
    assert(input.take(size as int) + device.skip(size as int) =~= input);
    assert(output.take(size as int) + input.skip(size as int) =~= output);
    reveal_with_fuel(carried_out, 8);
}

} // verus!
