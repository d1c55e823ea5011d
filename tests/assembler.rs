use better_script::assembler::BetterScript;
use bitcoin::opcodes::all::{OP_ADD, OP_DUP};
use bitcoin::opcodes::OP_TRUE;

fn script_of(codes: &[u8]) -> BetterScript {
    let mut s = BetterScript::new();
    for c in codes {
        s.push_opcode(*c);
    }
    s
}

#[test]
fn doubled_script_embedded_many_times() {
    let mut script = BetterScript::new();
    script.push_opcode(OP_TRUE.to_u8());
    script.push_opcode(OP_ADD.to_u8());
    script.push_opcode(OP_DUP.to_u8());
    script.push_opcode(OP_ADD.to_u8());
    script.push_opcode(OP_DUP.to_u8());
    script.push_opcode(OP_ADD.to_u8());
    for _ in 0..10 {
        script.push_environment_script(script.clone());
    }
    assert_eq!(script.size(), 6 * 1024);
    let sub_script = script.clone();

    for _ in 0..200 {
        script.push_environment_script(sub_script.clone());
    }
    assert_eq!(script.size(), 6 * 1024 * 201);

    let compiled_script = script.compile();
    assert_eq!(compiled_script.len(), 6 * 1024 * 201);
}

#[test]
fn concrete_scenario() {
    let mut s = BetterScript::new();
    s.push_opcode(OP_TRUE.to_u8());
    s.push_opcode(OP_ADD.to_u8());
    s.push_opcode(OP_DUP.to_u8());
    assert_eq!(s.size(), 3);
    let mut t = BetterScript::new();
    t.push_environment_script(s.clone());
    t.push_opcode(OP_ADD.to_u8());
    assert_eq!(t.size(), 4);
    assert_eq!(s.compile().as_bytes(), &[0x51u8, 0x93, 0x76][..]);
    assert_eq!(t.compile().as_bytes(), &[0x51u8, 0x93, 0x76, 0x93][..]);
}

#[test]
fn appends_keep_call_order() {
    let codes = [0x76u8, 0x00, 0xff, 0x51, 0x51, 0x93];
    let s = script_of(&codes);
    assert_eq!(s.size(), 6);
    assert_eq!(s.compile().into_bytes(), codes.to_vec());
}

#[test]
fn empty_assembler_compiles_to_nothing() {
    let s = BetterScript::new();
    assert_eq!(s.size(), 0);
    assert!(s.compile().is_empty());
}

#[test]
fn size_counts_embedded_at_embed_time() {
    let mut a = script_of(&[1, 2]);
    let mut b = script_of(&[3]);
    b.push_environment_script(a.clone());
    a.push_opcode(4);
    a.push_opcode(5);
    b.push_opcode(6);
    b.push_environment_script(BetterScript::new());
    assert_eq!(a.size(), 4);
    assert_eq!(b.size(), 1 + 2 + 1);
}

#[test]
fn embedded_copy_is_a_snapshot() {
    let mut a = script_of(&[0x51, 0x93]);
    let mut b = BetterScript::new();
    b.push_environment_script(a.clone());
    a.push_opcode(0x76);
    assert_eq!(b.compile().into_bytes(), vec![0x51u8, 0x93]);
    assert_eq!(a.compile().into_bytes(), vec![0x51u8, 0x93, 0x76]);
}

#[test]
fn compiling_twice_gives_same_bytes() {
    let mut a = script_of(&[7, 8]);
    let inner = script_of(&[9]);
    a.push_environment_script(inner);
    a.push_opcode(10);
    let mut first = Vec::new();
    let mut second = Vec::new();
    a.compile_to_bytes(&mut first);
    a.compile_to_bytes(&mut second);
    assert_eq!(first, second);
    assert_eq!(first, vec![7u8, 8, 9, 10]);
    assert_eq!(a.clone().compile().into_bytes(), a.compile().into_bytes());
}

#[test]
fn compile_to_bytes_appends_after_existing() {
    let s = script_of(&[0x93, 0x76]);
    let mut out = vec![0xaau8, 0xbb];
    s.compile_to_bytes(&mut out);
    assert_eq!(out, vec![0xaau8, 0xbb, 0x93, 0x76]);
}

#[test]
fn flatten_concatenates_parts() {
    let a_codes = [1u8, 2, 3];
    let b_codes = [4u8, 5];
    let mut s = script_of(&a_codes);
    s.push_environment_script(script_of(&b_codes));
    s.push_opcode(6);
    s.push_opcode(7);
    assert_eq!(s.size(), 7);
    assert_eq!(s.compile().into_bytes(), vec![1u8, 2, 3, 4, 5, 6, 7]);
}

#[test]
fn wrapping_before_embedding_changes_nothing() {
    let x = script_of(&[0x51, 0x76]);
    let mut wrapper = BetterScript::new();
    wrapper.push_environment_script(x.clone());
    let mut via_wrapper = script_of(&[0x00]);
    via_wrapper.push_environment_script(wrapper);
    let mut direct = script_of(&[0x00]);
    direct.push_environment_script(x);
    assert_eq!(via_wrapper.size(), direct.size());
    assert_eq!(via_wrapper.compile().into_bytes(), direct.compile().into_bytes());
}

#[test]
fn nested_embeddings_expand_every_occurrence() {
    let leaf = script_of(&[0xab]);
    let mut mid = script_of(&[0x01]);
    mid.push_environment_script(leaf.clone());
    mid.push_environment_script(leaf);
    let mut top = BetterScript::new();
    top.push_environment_script(mid.clone());
    top.push_opcode(0x02);
    top.push_environment_script(mid);
    assert_eq!(top.size(), 7);
    assert_eq!(
        top.compile().into_bytes(),
        vec![0x01u8, 0xab, 0xab, 0x02, 0x01, 0xab, 0xab]
    );
}

#[test]
fn self_embedding_doubles_each_round() {
    let mut s = script_of(&[0x51, 0x93, 0x76]);
    let n: usize = 3;
    for k in 1..=8u32 {
        s.push_environment_script(s.clone());
        assert_eq!(s.size(), n * 2usize.pow(k));
    }
    let bytes = s.compile().into_bytes();
    assert_eq!(bytes.len(), n * 256);
    for chunk in bytes.chunks(3) {
        assert_eq!(chunk, &[0x51u8, 0x93, 0x76][..]);
    }
}
