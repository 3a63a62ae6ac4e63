use rlsl::harness::judge;
use rlsl::harness::plan;
use rlsl::harness::reference;
use rlsl::harness::same_values;
use rlsl::harness::select_memory_type;
use rlsl::harness::Access;
use rlsl::harness::Command;
use rlsl::harness::MemoryProperties;
use rlsl::harness::Outcome;
use rlsl::harness::Role;
use rlsl::harness::Stage;
use rlsl::harness::Usage;

const NONE: MemoryProperties = MemoryProperties {
    device_local: false,
    cpu_visible: false,
    coherent: false,
    cpu_cached: false,
    lazily_allocated: false,
};

const LOCAL: MemoryProperties = MemoryProperties { device_local: true, ..NONE };

const VISIBLE: MemoryProperties = MemoryProperties { cpu_visible: true, coherent: true, ..NONE };

#[test]
fn the_first_suitable_memory_is_taken() {
    let all = MemoryProperties { device_local: true, cpu_cached: true, ..VISIBLE };
    let types = vec![NONE, LOCAL, VISIBLE, all];
    assert_eq!(select_memory_type(0b1111, &types, NONE), Some(0));
    assert_eq!(select_memory_type(0b1111, &types, LOCAL), Some(1));
    assert_eq!(select_memory_type(0b1111, &types, VISIBLE), Some(2));
    assert_eq!(select_memory_type(0b1011, &types, VISIBLE), Some(3));
    assert_eq!(select_memory_type(0b1101, &types, LOCAL), Some(3));
    assert_eq!(select_memory_type(0b0011, &types, VISIBLE), None);
    assert_eq!(select_memory_type(0, &types, NONE), None);
    assert_eq!(select_memory_type(u64::MAX, &vec![], NONE), None);
}

#[test]
fn the_last_bit_of_the_mask_counts() {
    let mut types = vec![NONE; 63];
    types.push(LOCAL);
    assert_eq!(select_memory_type(1 << 63, &types, LOCAL), Some(63));
    assert_eq!(select_memory_type(1 << 62, &types, LOCAL), None);
}

#[test]
fn properties_are_contained_one_by_one() {
    let lazy = MemoryProperties { lazily_allocated: true, ..NONE };
    let coherent = MemoryProperties { coherent: true, ..NONE };
    let cached = MemoryProperties { cpu_cached: true, ..NONE };
    assert!(VISIBLE.contains(coherent));
    assert!(!coherent.contains(VISIBLE));
    assert!(lazy.contains(NONE));
    assert!(!NONE.contains(lazy));
    assert!(!VISIBLE.contains(cached));
    assert!(VISIBLE.contains(VISIBLE));
}

#[test]
fn nothing_is_planned_without_numbers() {
    assert!(plan(4, 0).is_none());
}

#[test]
fn the_numbers_go_through_the_shader_and_back() {
    let plan = plan(4, 3).unwrap();
    assert_eq!(plan.staging.size, 12);
    assert_eq!(plan.staging.properties, VISIBLE);
    assert_eq!(
        plan.staging.usage,
        Usage { transfer_src: true, transfer_dst: true, storage: false }
    );
    assert_eq!(plan.device.size, 12);
    assert_eq!(plan.device.properties, LOCAL);
    assert_eq!(
        plan.device.usage,
        Usage { transfer_src: true, transfer_dst: true, storage: true }
    );
    let none = Access {
        transfer_read: false,
        transfer_write: false,
        shader_read: false,
        shader_write: false,
    };
    let shader = Access { shader_read: true, shader_write: true, ..none };
    assert_eq!(
        plan.commands,
        vec![
            Command::Copy { src: Role::Staging, dst: Role::Device, size: 12 },
            Command::Barrier {
                before: Stage::Transfer,
                after: Stage::ComputeShader,
                written: Access { transfer_write: true, ..none },
                allowed: shader,
            },
            Command::BindPipeline,
            Command::BindDescriptorSet,
            Command::Dispatch { x: 3, y: 1, z: 1 },
            Command::Barrier {
                before: Stage::ComputeShader,
                after: Stage::Transfer,
                written: shader,
                allowed: Access { transfer_read: true, ..none },
            },
            Command::Copy { src: Role::Device, dst: Role::Staging, size: 12 },
        ]
    );
}

#[test]
fn the_reference_sees_each_index() {
    let numbers = vec![10u32, 20, 30];
    assert_eq!(reference(&numbers, &|index, n| n + index), vec![10, 21, 32]);
    assert_eq!(reference(&Vec::<u32>::new(), &|_, n| n), Vec::<u32>::new());
}

#[test]
fn values_are_compared_in_order() {
    assert!(same_values(&vec![1.0f32, 2.0], &vec![1.0, 2.0]));
    assert!(!same_values(&vec![1.0f32, 2.0], &vec![2.0, 1.0]));
    assert!(!same_values(&vec![1.0f32], &vec![1.0, 2.0]));
    assert!(!same_values(&vec![f32::NAN], &vec![f32::NAN]));
    assert!(same_values(&vec![0.0f32], &vec![-0.0]));
}

#[test]
fn outcomes_follow_the_function() {
    let numbers = vec![1.0f32, 2.0, 3.0];
    let square = |_: u32, n: f32| n * n;
    assert_eq!(judge(&numbers, &vec![1.0, 4.0, 9.0], &square), Outcome::Passed);
    assert_eq!(judge(&numbers, &vec![1.0, 4.0, 8.0], &square), Outcome::Failed);
    assert_eq!(judge(&numbers, &vec![1.0, 4.0], &square), Outcome::Failed);
    assert_eq!(judge(&Vec::<f32>::new(), &vec![], &square), Outcome::Discarded);
    assert_eq!(judge(&Vec::<f32>::new(), &vec![1.0], &square), Outcome::Discarded);
    let nan = vec![f32::NAN];
    assert_eq!(judge(&nan, &nan, &|_, n| n), Outcome::Failed);
}

/// Carries the commands out on bytes, with a shader that adds one to each byte.
fn carried_out(input: &[u8], commands: &Vec<Command>) -> Vec<u8> {
    let mut staging = input.to_vec();
    let mut device = vec![0xaau8; input.len()];
    for command in commands {
        match *command {
            Command::Copy { src: Role::Staging, dst: Role::Device, size } => {
                device[..size as usize].copy_from_slice(&staging[..size as usize]);
            }
            Command::Copy { src: Role::Device, dst: Role::Staging, size } => {
                staging[..size as usize].copy_from_slice(&device[..size as usize]);
            }
            Command::Copy { .. } => panic!("a buffer is copied onto itself"),
            Command::Dispatch { x, y, z } => {
                assert_eq!((x, y, z), (device.len() as u32, 1, 1));
                for byte in device.iter_mut() {
                    *byte = byte.wrapping_add(1);
                }
            }
            _ => {}
        }
    }
    staging
}

#[test]
fn the_staging_buffer_ends_with_the_results() {
    let plan = plan(1, 4).unwrap();
    assert_eq!(carried_out(&[1, 2, 3, 255], &plan.commands), vec![2, 3, 4, 0]);
}
