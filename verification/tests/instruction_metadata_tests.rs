use std::collections::HashMap;
use wat_lsp_rust::instruction_metadata::{
    get_instruction_arity_map, infer_simd_instruction_arity, init_arity_table,
    lookup_instruction_arity, InstructionArity, OperandMode,
};


#[test]
fn test_instruction_arity_exact() {
    let arity = InstructionArity::exact(1, "index", 0, 1);
    assert_eq!(arity.min_params, 1);
    assert_eq!(arity.max_params, 1);
    assert_eq!(arity.operand_mode, OperandMode::Fixed(0));
    assert_eq!(arity.produces, 1);
    assert!(arity.is_valid(1));
    assert!(!arity.is_valid(0));
    assert!(!arity.is_valid(2));
}

#[test]
fn test_binary_op() {
    let arity = InstructionArity::binary_op();
    assert_eq!(arity.operand_mode, OperandMode::Fixed(2));
    assert_eq!(arity.produces, 1);
}

#[test]
fn test_unary_op() {
    let arity = InstructionArity::unary_op();
    assert_eq!(arity.operand_mode, OperandMode::Fixed(1));
    assert_eq!(arity.produces, 1);
}

#[test]
fn test_arity_map_contains_common_instructions() {
    let map: HashMap<&str, InstructionArity> = get_instruction_arity_map().into_iter().collect();
    assert!(map.contains_key("i32.add"));
    assert!(map.contains_key("local.get"));
    assert!(map.contains_key("call"));
    assert!(map.contains_key("i32.const"));
}

#[test]
fn test_simd_arity_binary_ops() {
    // Binary lane ops: 2 v128 → 1 v128
    for instr in &[
        "i32x4.add",
        "i16x8.sub",
        "f32x4.mul",
        "i64x2.eq",
        "i8x16.shuffle",
        "i32x4.shl",
        "i16x8.narrow_i32x4_s",
        "i32x4.extmul_low_i16x8_s",
        "f32x4.pmin",
        "i8x16.swizzle",
    ] {
        let arity = infer_simd_instruction_arity(instr);
        assert_eq!(arity, Some((2, 1)), "expected binary arity for {instr}");
    }
}

#[test]
fn test_simd_arity_unary_ops() {
    // Unary lane ops: 1 v128 → 1 v128
    for instr in &[
        "i32x4.neg",
        "f32x4.abs",
        "f64x2.sqrt",
        "f32x4.ceil",
        "i8x16.popcnt",
        "i32x4.extend_low_i16x8_s",
        "i16x8.extadd_pairwise_i8x16_s",
        "f64x2.promote_low_f32x4",
        "f32x4.demote_f64x2_zero",
        "i32x4.trunc_sat_f32x4_s",
        "f32x4.convert_i32x4_s",
    ] {
        let arity = infer_simd_instruction_arity(instr);
        assert_eq!(arity, Some((1, 1)), "expected unary arity for {instr}");
    }
}

#[test]
fn test_simd_arity_special_ops() {
    // Splat: 1 scalar → 1 v128
    assert_eq!(infer_simd_instruction_arity("i32x4.splat"), Some((1, 1)));
    assert_eq!(infer_simd_instruction_arity("f64x2.splat"), Some((1, 1)));

    // Extract lane: 1 v128 → 1 scalar
    assert_eq!(
        infer_simd_instruction_arity("i32x4.extract_lane"),
        Some((1, 1))
    );
    assert_eq!(
        infer_simd_instruction_arity("i8x16.extract_lane_s"),
        Some((1, 1))
    );

    // Replace lane: v128 + scalar → v128
    assert_eq!(
        infer_simd_instruction_arity("i32x4.replace_lane"),
        Some((2, 1))
    );

    // Reductions: v128 → i32
    assert_eq!(infer_simd_instruction_arity("i32x4.all_true"), Some((1, 1)));
    assert_eq!(infer_simd_instruction_arity("i16x8.bitmask"), Some((1, 1)));
}

#[test]
fn test_simd_arity_v128_ops() {
    // v128 bitwise
    assert_eq!(infer_simd_instruction_arity("v128.and"), Some((2, 1)));
    assert_eq!(infer_simd_instruction_arity("v128.or"), Some((2, 1)));
    assert_eq!(infer_simd_instruction_arity("v128.not"), Some((1, 1)));
    assert_eq!(infer_simd_instruction_arity("v128.bitselect"), Some((3, 1)));
    assert_eq!(infer_simd_instruction_arity("v128.any_true"), Some((1, 1)));

    // v128 const
    assert_eq!(infer_simd_instruction_arity("v128.const"), Some((0, 1)));

    // v128 memory ops
    assert_eq!(infer_simd_instruction_arity("v128.load"), Some((1, 1)));
    assert_eq!(
        infer_simd_instruction_arity("v128.load32_splat"),
        Some((1, 1))
    );
    assert_eq!(
        infer_simd_instruction_arity("v128.load64_zero"),
        Some((1, 1))
    );
    assert_eq!(
        infer_simd_instruction_arity("v128.load32_lane"),
        Some((2, 1))
    );
    assert_eq!(infer_simd_instruction_arity("v128.store"), Some((2, 0)));
    assert_eq!(
        infer_simd_instruction_arity("v128.store32_lane"),
        Some((2, 0))
    );
}

#[test]
fn test_relaxed_simd_full_coverage() {
    // Ternary: madd, nmadd, laneselect (3 operands → 1 result)
    for instr in [
        "f32x4.relaxed_madd",
        "f32x4.relaxed_nmadd",
        "f64x2.relaxed_madd",
        "f64x2.relaxed_nmadd",
        "i8x16.relaxed_laneselect",
        "i16x8.relaxed_laneselect",
        "i32x4.relaxed_laneselect",
        "i64x2.relaxed_laneselect",
        "i32x4.relaxed_dot_i8x16_i7x16_add_s",
    ] {
        let arity = infer_simd_instruction_arity(instr);
        assert_eq!(
            arity,
            Some((3, 1)),
            "{instr} should be ternary (3 operands → 1 result)"
        );
    }

    // Binary: swizzle, min, max, trunc, q15mulr (2 operands → 1 result)
    for instr in [
        "i8x16.relaxed_swizzle",
        "f32x4.relaxed_min",
        "f32x4.relaxed_max",
        "f64x2.relaxed_min",
        "f64x2.relaxed_max",
        "i16x8.relaxed_q15mulr_s",
    ] {
        let arity = infer_simd_instruction_arity(instr);
        assert_eq!(
            arity,
            Some((2, 1)),
            "{instr} should be binary (2 operands → 1 result)"
        );
    }

    // Unary: trunc (1 operand → 1 result)
    for instr in [
        "i32x4.relaxed_trunc_f32x4_s",
        "i32x4.relaxed_trunc_f32x4_u",
        "i32x4.relaxed_trunc_f64x2_s_zero",
        "i32x4.relaxed_trunc_f64x2_u_zero",
    ] {
        let arity = infer_simd_instruction_arity(instr);
        assert_eq!(
            arity,
            Some((1, 1)),
            "{instr} should be unary (1 operand → 1 result)"
        );
    }
}

#[test]
fn test_simd_arity_non_simd_returns_none() {
    // Non-SIMD instructions should return None
    assert_eq!(infer_simd_instruction_arity("i32.add"), None);
    assert_eq!(infer_simd_instruction_arity("local.get"), None);
    assert_eq!(infer_simd_instruction_arity("call"), None);
}

#[test]
fn test_atomic_instruction_arity() {
    let map: HashMap<&str, InstructionArity> = get_instruction_arity_map().into_iter().collect();

    // fence: no operands, no results
    let fence = &map["atomic.fence"];
    assert_eq!(fence.operand_mode, OperandMode::Fixed(0));
    assert_eq!(fence.produces, 0);

    // Atomic loads: addr → value (same shape as mem_load)
    for instr in &[
        "i32.atomic.load",
        "i64.atomic.load",
        "i32.atomic.load8_u",
        "i32.atomic.load16_u",
        "i64.atomic.load8_u",
        "i64.atomic.load16_u",
        "i64.atomic.load32_u",
    ] {
        let arity = &map[*instr];
        assert_eq!(
            arity.operand_mode,
            OperandMode::Fixed(1),
            "{instr} operands"
        );
        assert_eq!(arity.produces, 1, "{instr} produces");
    }

    // Atomic stores: addr + value → ∅ (same shape as mem_store)
    for instr in &[
        "i32.atomic.store",
        "i64.atomic.store",
        "i32.atomic.store8",
        "i32.atomic.store16",
        "i64.atomic.store8",
        "i64.atomic.store16",
        "i64.atomic.store32",
    ] {
        let arity = &map[*instr];
        assert_eq!(
            arity.operand_mode,
            OperandMode::Fixed(2),
            "{instr} operands"
        );
        assert_eq!(arity.produces, 0, "{instr} produces");
    }

    // Atomic RMW: addr + operand → old value
    for instr in &[
        "i32.atomic.rmw.add",
        "i64.atomic.rmw.sub",
        "i32.atomic.rmw8.xor_u",
        "i64.atomic.rmw16.xchg_u",
        "i64.atomic.rmw32.and_u",
    ] {
        let arity = &map[*instr];
        assert_eq!(
            arity.operand_mode,
            OperandMode::Fixed(2),
            "{instr} operands"
        );
        assert_eq!(arity.produces, 1, "{instr} produces");
    }

    // Atomic cmpxchg: addr + expected + replacement → old value
    for instr in &[
        "i32.atomic.rmw.cmpxchg",
        "i64.atomic.rmw.cmpxchg",
        "i32.atomic.rmw8.cmpxchg_u",
        "i64.atomic.rmw32.cmpxchg_u",
    ] {
        let arity = &map[*instr];
        assert_eq!(
            arity.operand_mode,
            OperandMode::Fixed(3),
            "{instr} operands"
        );
        assert_eq!(arity.produces, 1, "{instr} produces");
    }

    // Wait/notify
    let wait32 = &map["memory.atomic.wait32"];
    assert_eq!(wait32.operand_mode, OperandMode::Fixed(3));
    assert_eq!(wait32.produces, 1);

    let wait64 = &map["memory.atomic.wait64"];
    assert_eq!(wait64.operand_mode, OperandMode::Fixed(3));
    assert_eq!(wait64.produces, 1);

    let notify = &map["memory.atomic.notify"];
    assert_eq!(notify.operand_mode, OperandMode::Fixed(2));
    assert_eq!(notify.produces, 1);
}


#[test]
fn arity_table_is_sorted_by_name() {
    let t = init_arity_table();
    assert_eq!(t[0].0, "any.convert_extern");
    assert_eq!(t[t.len() - 1].0, "unreachable");
    for i in 1..t.len() {
        assert!(t[i - 1].0 < t[i].0, "{} before {}", t[i - 1].0, t[i].0);
    }
    for (_, a) in t.iter() {
        assert!(a.min_params <= a.max_params);
    }
}

#[test]
fn arity_lookup_finds_first_middle_last_and_absent() {
    assert_eq!(lookup_instruction_arity("any.convert_extern").unwrap().min_params, 0);
    assert_eq!(lookup_instruction_arity("unreachable").unwrap().max_params, 0);
    let g = lookup_instruction_arity("local.get").unwrap();
    assert_eq!((g.min_params, g.max_params), (1, 1));
    assert!(lookup_instruction_arity("i32.bogus").is_none());
    assert!(lookup_instruction_arity("").is_none());
    assert!(lookup_instruction_arity("zzz").is_none());
}

#[test]
fn br_table_takes_one_or_more_labels() {
    let a = lookup_instruction_arity("br_table").unwrap();
    assert!(!a.is_valid(0));
    assert!(a.is_valid(1));
    assert!(a.is_valid(7));
    assert!(a.is_valid(usize::MAX));
}
