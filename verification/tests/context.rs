use std::collections::HashMap;

use rlsl::builder::StorageClass;
use rlsl::context::accept;
use rlsl::context::Attribute;
use rlsl::context::BuildError;
use rlsl::context::HirNode;
use rlsl::context::Intrinsic;
use rlsl::context::SpirvCtx;
use rlsl::context::SpirvFn;
use rlsl::context::SpirvFunctionCall;
use rlsl::context::TyCtxt;
use rlsl::mono::MirContext;
use rlsl::ty::DefId;
use rlsl::ty::Ty;
use rlsl::words::words_to_bytes;

fn empty() -> SpirvCtx {
    SpirvCtx::new(TyCtxt { nodes: HashMap::new(), layouts: vec![] })
}

fn as_words(bytes: &[u8]) -> Vec<u32> {
    bytes.chunks(4).map(|b| u32::from_le_bytes([b[0], b[1], b[2], b[3]])).collect()
}

#[test]
fn a_new_context_declares_a_shader() {
    let ctx = empty();
    assert!(ctx.debug_symbols);
    assert_eq!(ctx.glsl_ext_id, 1);
    assert!(ctx.forward_fns.is_empty());
    assert!(ctx.intrinsic_fns.is_empty());
    let bytes = ctx.build_module().unwrap();
    assert_eq!(
        as_words(&bytes),
        vec![
            0x0723_0203, 0x0001_0300, 0x000f_0000, 2, 0,
            // OpCapability Shader
            0x0002_0011, 1,
            // OpExtInstImport "GLSL.std.450"
            0x0006_000b, 1, 0x4c53_4c47, 0x6474_732e, 0x3035_342e, 0,
            // OpMemoryModel Logical GLSL450
            0x0003_000e, 0, 1,
        ]
    );
    assert_eq!(bytes[..4].to_vec(), vec![0x03, 0x02, 0x23, 0x07]);
}

#[test]
fn the_bound_counts_the_ids() {
    let mut ctx = empty();
    let mtx = MirContext { def_id: DefId { krate: 0, index: 0 }, substs: vec![] };
    ctx.to_ty(&Ty::Bool, &mtx, StorageClass::Function);
    let words = as_words(&ctx.build_module().unwrap());
    assert_eq!(words[3], 3);
}

#[test]
fn names_follow_text_and_definitions() {
    let local = DefId { krate: 0, index: 4 };
    let far = DefId { krate: 4, index: 0 };
    let mut nodes = HashMap::new();
    nodes.insert(local.key(), HirNode::Other { name: "local".to_string() });
    let mut ctx = SpirvCtx::new(TyCtxt { nodes, layouts: vec![] });
    ctx.name_from_str("main", 1);
    ctx.name_from_def_id(local, 1);
    ctx.name_from_def_id(far, 1);
    ctx.debug_symbols = false;
    ctx.name_from_str("hidden", 1);
    ctx.name_from_def_id(local, 1);
    let words = as_words(&ctx.build_module().unwrap());
    assert_eq!(
        words[16..].to_vec(),
        vec![
            0x0004_0005, 1, 0x6e69_616d, 0,
            0x0004_0005, 1, 0x6163_6f6c, 0x6c,
        ]
    );
}

#[test]
fn names_are_written_as_utf8() {
    let mut ctx = empty();
    ctx.name_from_str("\u{3bb}", 1);
    ctx.name_from_str("", 1);
    let words = as_words(&ctx.build_module().unwrap());
    assert_eq!(words[16..].to_vec(), vec![0x0003_0005, 1, 0xbbce, 0x0003_0005, 1, 0]);
}

#[test]
fn a_function_is_preferred_to_an_intrinsic() {
    let both = DefId { krate: 0, index: 1 };
    let intrinsic = DefId { krate: 0, index: 2 };
    let neither = DefId { krate: 0, index: 3 };
    let mut ctx = empty();
    ctx.forward_fns.insert(both.key(), SpirvFn(10));
    ctx.intrinsic_fns.insert(both.key(), Intrinsic(20));
    ctx.intrinsic_fns.insert(intrinsic.key(), Intrinsic(30));
    assert_eq!(
        ctx.get_function_call(both),
        Some(SpirvFunctionCall::Function(SpirvFn(10)))
    );
    assert_eq!(
        ctx.get_function_call(intrinsic),
        Some(SpirvFunctionCall::Intrinsic(Intrinsic(30)))
    );
    assert_eq!(ctx.get_function_call(neither), None);
}

#[test]
fn only_local_items_have_attributes() {
    let item = DefId { krate: 0, index: 1 };
    let other = DefId { krate: 0, index: 2 };
    let far = DefId { krate: 7, index: 1 };
    let mut nodes = HashMap::new();
    nodes.insert(
        item.key(),
        HirNode::Item {
            name: "vertex".to_string(),
            attrs: vec![
                Attribute { text: "spirv(vertex)".to_string() },
                Attribute { text: "inline".to_string() },
            ],
        },
    );
    nodes.insert(other.key(), HirNode::Other { name: "arg".to_string() });
    let ctx = SpirvCtx::new(TyCtxt { nodes, layouts: vec![] });
    let attrs = ctx.attrs_from_def_id(item).unwrap();
    assert_eq!(attrs.len(), 2);
    assert_eq!(attrs[0].text, "spirv(vertex)");
    assert_eq!(attrs[1].text, "inline");
    assert!(ctx.attrs_from_def_id(other).is_none());
    assert!(ctx.attrs_from_def_id(far).is_none());
}

#[test]
fn bytes_are_kept_if_parsing_succeeded() {
    assert_eq!(accept(vec![1, 2, 3], Ok(())), Ok(vec![1, 2, 3]));
    let failure = rspirv::binary::parse_bytes(&[1u8, 2, 3], &mut rspirv::mr::Loader::new());
    assert!(failure.is_err());
    assert_eq!(accept(vec![1, 2, 3], failure), Err(BuildError::Rejected));
}

#[test]
fn words_are_written_lowest_byte_first() {
    assert_eq!(words_to_bytes(&vec![]), Vec::<u8>::new());
    let words = vec![0x0403_0201, 0xffff_fffe, 0];
    let bytes = words_to_bytes(&words);
    assert_eq!(bytes, vec![1, 2, 3, 4, 0xfe, 0xff, 0xff, 0xff, 0, 0, 0, 0]);
    assert_eq!(as_words(&bytes), words);
}
