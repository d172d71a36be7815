use r2sleigh::conc::slab::{ConcError, Control, SlabState};
use r2sleigh::il::op::R2ILOp;
use r2sleigh::il::space::SpaceId;
use r2sleigh::il::varnode::Varnode;

fn reg(off: u64, size: u32) -> Varnode {
    Varnode::register(off, size)
}

fn konst(v: u64, size: u32) -> Varnode {
    Varnode::constant(v, size)
}

/// A two-byte write is little-endian and touches nothing else in the slab.
#[test]
fn sub_slab_writes_are_le_and_touch_nothing_else() {
    let mut r = [0xAAu8; 8];
    let mut m = [0u8; 4];
    let mut st = SlabState::new(&mut r, &mut m, 0);
    st.step(&R2ILOp::Copy {
        dst: reg(3, 2),
        src: konst(0x1234, 2),
    })
    .unwrap();
    drop(st);
    assert_eq!(r, [0xAA, 0xAA, 0xAA, 0x34, 0x12, 0xAA, 0xAA, 0xAA]);
}

/// Constant reads truncate to the varnode's size; constant writes are refused.
#[test]
fn const_space_is_read_only_and_width_masked() {
    let mut r = [0u8; 8];
    let mut m = [0u8; 1];
    let mut st = SlabState::new(&mut r, &mut m, 0);
    assert_eq!(st.read(&konst(0x1_FF, 1)).unwrap(), 0xFF);
    assert_eq!(st.write(&konst(0, 1), 1), Err(ConcError::ConstWrite));
}

/// Wrap and carry-out at one byte, both ways.
#[test]
fn carry_is_two_sided_at_operand_width() {
    let mut r = [0u8; 8];
    let mut m = [0u8; 1];
    let mut st = SlabState::new(&mut r, &mut m, 0);
    let (a, b, sum, c) = (reg(0, 1), reg(1, 1), reg(2, 1), reg(3, 1));
    for (x, y, want_sum, want_c) in [(0xFFu64, 1u64, 0u64, 1u64), (1, 1, 2, 0)] {
        st.write(&a, x).unwrap();
        st.write(&b, y).unwrap();
        st.step(&R2ILOp::IntAdd {
            dst: sum.clone(),
            a: a.clone(),
            b: b.clone(),
        })
        .unwrap();
        st.step(&R2ILOp::IntCarry {
            dst: c.clone(),
            a: a.clone(),
            b: b.clone(),
        })
        .unwrap();
        assert_eq!(st.read(&sum).unwrap(), want_sum);
        assert_eq!(st.read(&c).unwrap(), want_c);
    }
}

/// Signed overflow and borrow at one byte, both ways.
#[test]
fn signed_carry_and_borrow_fire_and_stay_silent() {
    let mut r = [0u8; 8];
    let mut m = [0u8; 1];
    let mut st = SlabState::new(&mut r, &mut m, 0);
    let (a, b, f) = (reg(0, 1), reg(1, 1), reg(2, 1));
    let cases = [
        (
            R2ILOp::IntSCarry {
                dst: f.clone(),
                a: a.clone(),
                b: b.clone(),
            },
            0x7Fu64,
            1u64,
            1u64,
        ),
        (
            R2ILOp::IntSCarry {
                dst: f.clone(),
                a: a.clone(),
                b: b.clone(),
            },
            1,
            1,
            0,
        ),
        (
            R2ILOp::IntSBorrow {
                dst: f.clone(),
                a: a.clone(),
                b: b.clone(),
            },
            0x80,
            1,
            1,
        ),
        (
            R2ILOp::IntSBorrow {
                dst: f.clone(),
                a: a.clone(),
                b: b.clone(),
            },
            5,
            3,
            0,
        ),
    ];
    for (op, x, y, want) in cases {
        st.write(&a, x).unwrap();
        st.write(&b, y).unwrap();
        st.step(&op).unwrap();
        assert_eq!(st.read(&f).unwrap(), want, "x={x:#x} y={y:#x}");
    }
}

/// Shifts past the width give zero to the left and unsigned right, the sign to
/// the signed right.
#[test]
fn shifts_past_the_operand_width_match_the_symbolic_anchor() {
    let mut r = [0u8; 8];
    let mut m = [0u8; 1];
    let mut st = SlabState::new(&mut r, &mut m, 0);
    let (a, d) = (reg(0, 1), reg(2, 1));
    st.write(&a, 0x81).unwrap();
    let sh = konst(9, 1);
    st.step(&R2ILOp::IntLeft {
        dst: d.clone(),
        a: a.clone(),
        b: sh.clone(),
    })
    .unwrap();
    assert_eq!(st.read(&d).unwrap(), 0);
    st.step(&R2ILOp::IntRight {
        dst: d.clone(),
        a: a.clone(),
        b: sh.clone(),
    })
    .unwrap();
    assert_eq!(st.read(&d).unwrap(), 0);
    st.step(&R2ILOp::IntSRight {
        dst: d.clone(),
        a: a.clone(),
        b: sh,
    })
    .unwrap();
    assert_eq!(st.read(&d).unwrap(), 0xFF, "arithmetic right sign-fills");
}

/// Signed division truncates toward zero; a zero divisor is refused.
#[test]
fn signed_division_truncates_and_zero_divisors_are_refused() {
    let mut r = [0u8; 8];
    let mut m = [0u8; 1];
    let mut st = SlabState::new(&mut r, &mut m, 0);
    let d = reg(0, 1);
    st.step(&R2ILOp::IntSDiv {
        dst: d.clone(),
        a: konst(0xF9, 1),
        b: konst(2, 1),
    })
    .unwrap();
    assert_eq!(
        st.read(&d).unwrap() as u8 as i8,
        -3,
        "trunc toward zero, not floor"
    );
    for op in [
        R2ILOp::IntDiv {
            dst: d.clone(),
            a: konst(1, 1),
            b: konst(0, 1),
        },
        R2ILOp::IntSDiv {
            dst: d.clone(),
            a: konst(1, 1),
            b: konst(0, 1),
        },
        R2ILOp::IntRem {
            dst: d.clone(),
            a: konst(1, 1),
            b: konst(0, 1),
        },
        R2ILOp::IntSRem {
            dst: d.clone(),
            a: konst(1, 1),
            b: konst(0, 1),
        },
    ] {
        assert_eq!(st.step(&op), Err(ConcError::DivByZero));
    }
}

/// Pieces come apart again; an offset past the source is refused.
#[test]
fn piece_subpiece_round_trip_and_out_of_range_refusal() {
    let mut r = [0u8; 8];
    let mut m = [0u8; 1];
    let mut st = SlabState::new(&mut r, &mut m, 0);
    let (hi, lo, w, back) = (reg(0, 1), reg(1, 1), reg(2, 2), reg(4, 1));
    st.write(&hi, 0xAB).unwrap();
    st.write(&lo, 0xCD).unwrap();
    st.step(&R2ILOp::Piece {
        dst: w.clone(),
        hi: hi.clone(),
        lo: lo.clone(),
    })
    .unwrap();
    assert_eq!(st.read(&w).unwrap(), 0xABCD);
    st.step(&R2ILOp::Subpiece {
        dst: back.clone(),
        src: w.clone(),
        offset: 1,
    })
    .unwrap();
    assert_eq!(st.read(&back).unwrap(), 0xAB);
    assert_eq!(
        st.step(&R2ILOp::Subpiece {
            dst: back,
            src: w,
            offset: 2
        }),
        Err(ConcError::SubpieceOutOfRange { offset: 2, size: 2 })
    );
}

/// Leading zeros are counted within the operand's width.
#[test]
fn lzcount_is_width_relative() {
    let mut r = [0u8; 8];
    let mut m = [0u8; 1];
    let mut st = SlabState::new(&mut r, &mut m, 0);
    let d = reg(0, 1);
    st.step(&R2ILOp::Lzcount {
        dst: d.clone(),
        src: konst(0x01, 1),
    })
    .unwrap();
    assert_eq!(st.read(&d).unwrap(), 7);
}

/// The address varnode's value selects the cell; a custom space works only
/// where its slab is registered.
#[test]
fn load_store_deref_and_custom_spaces() {
    let mut r = [0u8; 8];
    let mut m = [0u8; 16];
    let mut zp = [0u8; 4];
    let mut st = SlabState::new(&mut r, &mut m, 0).with_custom(1, &mut zp);
    let addr = reg(0, 1);
    st.write(&addr, 5).unwrap();
    st.step(&R2ILOp::Store {
        space: SpaceId::Ram,
        addr: addr.clone(),
        val: konst(0x7E, 1),
    })
    .unwrap();
    let d = reg(2, 1);
    st.step(&R2ILOp::Load {
        dst: d.clone(),
        space: SpaceId::Ram,
        addr: addr.clone(),
    })
    .unwrap();
    assert_eq!(st.read(&d).unwrap(), 0x7E);
    st.step(&R2ILOp::Store {
        space: SpaceId::Custom(1),
        addr: konst(2, 1),
        val: konst(9, 1),
    })
    .unwrap();
    assert_eq!(
        st.step(&R2ILOp::Load {
            dst: d,
            space: SpaceId::Custom(7),
            addr: konst(0, 1)
        }),
        Err(ConcError::UnknownSpace(7))
    );
    drop(st);
    assert_eq!(
        m[5], 0x7E,
        "the CALLER's ram saw the store — zero-copy, not a shadow"
    );
    assert_eq!(zp[2], 9);
}

/// Direct targets are the varnode's offset, indirect targets its value.
#[test]
fn direct_targets_are_offsets_indirect_targets_are_values() {
    let mut r = [0u8; 8];
    let mut m = [0u8; 64];
    m[0x20] = 0x99;
    let mut st = SlabState::new(&mut r, &mut m, 0);
    let target = Varnode::new(SpaceId::Ram, 0x20, 1);
    assert_eq!(
        st.step(&R2ILOp::Branch {
            target: target.clone()
        }),
        Ok(Control::Jump(0x20))
    );
    assert_eq!(
        st.step(&R2ILOp::Call {
            target: target.clone()
        }),
        Ok(Control::Call(0x20))
    );
    assert_eq!(
        st.step(&R2ILOp::BranchInd {
            target: target.clone()
        }),
        Ok(Control::Jump(0x99))
    );
    assert_eq!(
        st.step(&R2ILOp::Return { target }),
        Ok(Control::Return(0x99))
    );
    let cond = reg(0, 1);
    st.write(&cond, 1).unwrap();
    let t2 = Varnode::new(SpaceId::Ram, 0x30, 1);
    assert_eq!(
        st.step(&R2ILOp::CBranch {
            target: t2.clone(),
            cond: cond.clone()
        }),
        Ok(Control::Jump(0x30))
    );
    st.write(&cond, 0).unwrap();
    assert_eq!(
        st.step(&R2ILOp::CBranch { target: t2, cond }),
        Ok(Control::Next)
    );
}

/// Every refusal is loud: what is out of bounds names its slab, and floats and
/// analysis operations are unsupported.
#[test]
fn refusals_are_loud_never_silent() {
    let mut r = [0u8; 4];
    let mut m = [0u8; 4];
    let mut st = SlabState::new(&mut r, &mut m, 2);
    assert_eq!(
        st.read(&reg(3, 2)),
        Err(ConcError::OutOfBounds {
            space: SpaceId::Register,
            offset: 3,
            size: 2,
            len: 4
        })
    );
    assert_eq!(st.read(&reg(0, 9)), Err(ConcError::WidthTooWide(9)));
    assert_eq!(
        st.step(&R2ILOp::FloatAdd {
            dst: reg(0, 4),
            a: reg(0, 4),
            b: reg(0, 4)
        }),
        Err(ConcError::Unsupported("FloatAdd"))
    );
    assert_eq!(
        st.step(&R2ILOp::Breakpoint),
        Err(ConcError::Unsupported("Breakpoint"))
    );
}

/// A loop that adds up one to five, sequenced by the caller.
#[test]
fn a_caller_sequenced_loop_computes_the_hand_derived_sum() {
    let mut r = [0u8; 8];
    let mut m = [0u8; 1];
    let mut st = SlabState::new(&mut r, &mut m, 4);
    let (i, sum, cond) = (reg(0, 1), reg(1, 1), Varnode::new(SpaceId::Unique, 0, 1));
    let loop_head = Varnode::new(SpaceId::Ram, 0, 1);
    let prog = [
        R2ILOp::IntAdd {
            dst: sum.clone(),
            a: sum.clone(),
            b: i.clone(),
        },
        R2ILOp::IntAdd {
            dst: i.clone(),
            a: i.clone(),
            b: konst(1, 1),
        },
        R2ILOp::IntLessEqual {
            dst: cond.clone(),
            a: i.clone(),
            b: konst(5, 1),
        },
        R2ILOp::CBranch {
            target: loop_head,
            cond: cond.clone(),
        },
    ];
    st.write(&i, 1).unwrap();
    let mut pc = 0usize;
    let mut steps = 0;
    while pc < prog.len() {
        steps += 1;
        assert!(steps < 100, "runaway loop — CBranch semantics broken");
        match st.step(&prog[pc]).unwrap() {
            Control::Next => pc += 1,
            Control::Jump(a) => pc = a as usize,
            other => panic!("unexpected control: {other:?}"),
        }
    }
    assert_eq!(st.read(&sum).unwrap(), 15);
    assert_eq!(st.read(&i).unwrap(), 6);
    assert!(steps > prog.len(), "the loop must actually have looped");
}

const MULTIPLY: &[u8] = &[
    0xA9, 0x00, 0xA2, 0x08, 0x46, 0xF0, 0x90, 0x03, 0x18, 0x65, 0xF1, 0x6A, 0x66, 0xF0, 0xCA, 0xD0,
    0xF5, 0x85, 0xF2, 0xEA,
];

/// Every addition of the multiply routine clears the carry first, and the
/// routine never branches on overflow.
#[test]
fn the_multiply_routines_computed_result_cannot_be_affected_by_the_adc_defect() {
    let adc_at = MULTIPLY
        .windows(2)
        .position(|w| w == [0x65, 0xF1])
        .expect("the routine must contain ADC $F1");
    assert_eq!(
        MULTIPLY[adc_at - 1],
        0x18,
        "every ADC in this routine must be immediately preceded by CLC"
    );
    assert_eq!(
        MULTIPLY.iter().filter(|b| **b == 0x65).count(),
        1,
        "exactly one ADC, so the CLC check above covers all of them"
    );
    assert!(
        !MULTIPLY.contains(&0x50) && !MULTIPLY.contains(&0x70),
        "the routine must not branch on overflow"
    );
}

#[test]
fn an_unresolved_space_is_refused() {
    let mut r = [0u8; 4];
    let mut m = [0u8; 4];
    let mut st = SlabState::new(&mut r, &mut m, 2);
    let vn = Varnode::new(SpaceId::Unresolved, 0, 1);
    assert_eq!(st.read(&vn), Err(ConcError::Unsupported("Unresolved")));
    assert_eq!(st.write(&vn, 1), Err(ConcError::Unsupported("Unresolved")));
}

#[test]
fn a_refused_write_changes_nothing() {
    let mut r = [0x11u8; 4];
    let mut m = [0u8; 4];
    let mut st = SlabState::new(&mut r, &mut m, 0);
    assert_eq!(
        st.write(&reg(3, 2), 0xBEEF),
        Err(ConcError::OutOfBounds {
            space: SpaceId::Register,
            offset: 3,
            size: 2,
            len: 4
        })
    );
    assert_eq!(st.write(&reg(0, 9), 1), Err(ConcError::WidthTooWide(9)));
    drop(st);
    assert_eq!(r, [0x11; 4]);
}

#[test]
fn disjoint_locations_keep_their_value() {
    let mut r = [0u8; 8];
    let mut m = [0u8; 8];
    let mut st = SlabState::new(&mut r, &mut m, 8);
    st.write(&reg(0, 2), 0x0102).unwrap();
    st.write(&reg(2, 2), 0x0304).unwrap();
    st.write(&Varnode::ram(0, 8), u64::MAX).unwrap();
    st.write(&Varnode::unique(0, 8), 7).unwrap();
    assert_eq!(st.read(&reg(0, 2)).unwrap(), 0x0102);
    assert_eq!(st.read(&reg(2, 2)).unwrap(), 0x0304);
    assert_eq!(st.read(&reg(0, 4)).unwrap(), 0x0304_0102);
    assert_eq!(st.read(&Varnode::ram(0, 8)).unwrap(), u64::MAX);
    assert_eq!(st.read(&Varnode::unique(0, 8)).unwrap(), 7);
}

#[test]
fn predicates_and_counts_give_exact_values() {
    let mut r = [0u8; 16];
    let mut m = [0u8; 1];
    let mut st = SlabState::new(&mut r, &mut m, 0);
    let d = reg(0, 1);
    let ops = [
        (
            R2ILOp::IntLess {
                dst: d.clone(),
                a: konst(0x7F, 1),
                b: konst(0x80, 1),
            },
            1,
        ),
        (
            R2ILOp::IntSLess {
                dst: d.clone(),
                a: konst(0x7F, 1),
                b: konst(0x80, 1),
            },
            0,
        ),
        (
            R2ILOp::IntEqual {
                dst: d.clone(),
                a: konst(3, 1),
                b: konst(3, 1),
            },
            1,
        ),
        (
            R2ILOp::PopCount {
                dst: d.clone(),
                src: konst(0xF1, 1),
            },
            5,
        ),
        (
            R2ILOp::IntNot {
                dst: d.clone(),
                src: konst(0x0F, 1),
            },
            0xF0,
        ),
        (
            R2ILOp::IntNegate {
                dst: d.clone(),
                src: konst(1, 1),
            },
            0xFF,
        ),
        (
            R2ILOp::BoolNot {
                dst: d.clone(),
                src: konst(0, 1),
            },
            1,
        ),
    ];
    for (op, want) in ops {
        assert_eq!(st.step(&op), Ok(Control::Next));
        assert_eq!(st.read(&d).unwrap(), want, "{op:?}");
    }
}

#[test]
fn sign_and_zero_extension_differ_above_the_sign() {
    let mut r = [0u8; 8];
    let mut m = [0u8; 1];
    let mut st = SlabState::new(&mut r, &mut m, 0);
    let d = reg(0, 2);
    st.step(&R2ILOp::IntSExt {
        dst: d.clone(),
        src: konst(0x80, 1),
    })
    .unwrap();
    assert_eq!(st.read(&d).unwrap(), 0xFF80);
    st.step(&R2ILOp::IntZExt {
        dst: d.clone(),
        src: konst(0x80, 1),
    })
    .unwrap();
    assert_eq!(st.read(&d).unwrap(), 0x0080);
}

#[test]
fn errors_say_what_happened() {
    let out_of_bounds = ConcError::OutOfBounds {
        space: SpaceId::Custom(7),
        offset: 0x1f,
        size: 2,
        len: 4,
    };
    assert_eq!(
        out_of_bounds.to_text(),
        "Custom(7)+0x1f..+2 out of bounds (slab len 4)"
    );
    assert_eq!(
        ConcError::WidthTooWide(9).to_text(),
        "varnode width 9 > 8 bytes — not representable in the u64 core"
    );
    assert_eq!(ConcError::ConstWrite.to_text(), "write into Const space");
    assert_eq!(
        ConcError::UnknownSpace(7).to_text(),
        "no slab registered for custom space 7"
    );
    assert_eq!(ConcError::DivByZero.to_text(), "division by zero");
    assert_eq!(
        ConcError::SubpieceOutOfRange { offset: 2, size: 2 }.to_text(),
        "subpiece offset 2 >= source size 2"
    );
    assert_eq!(
        ConcError::Unsupported("FloatAdd").to_text(),
        "op outside the concrete subset: FloatAdd"
    );
}

/// The slab registered last under an id takes the place of the first, which is
/// left as it was; the slab of another id stays.
#[test]
fn the_last_slab_under_an_id_is_the_one_reached() {
    let mut r = [0u8; 4];
    let mut m = [0u8; 4];
    let mut first = [1u8; 4];
    let mut second = [2u8; 4];
    let mut other = [3u8; 4];
    let mut st = SlabState::new(&mut r, &mut m, 0)
        .with_custom(1, &mut first)
        .with_custom(2, &mut other)
        .with_custom(1, &mut second);
    assert_eq!(st.read(&Varnode::new(SpaceId::Custom(1), 0, 1)), Ok(2));
    assert_eq!(st.read(&Varnode::new(SpaceId::Custom(2), 0, 1)), Ok(3));
    st.write(&Varnode::new(SpaceId::Custom(1), 2, 1), 9).unwrap();
    st.step(&R2ILOp::Store {
        space: SpaceId::Custom(2),
        addr: konst(3, 1),
        val: konst(8, 1),
    })
    .unwrap();
    drop(st);
    assert_eq!(first, [1, 1, 1, 1]);
    assert_eq!(second, [2, 2, 9, 2]);
    assert_eq!(other, [3, 3, 3, 8]);
}
