use mist::error::MistError;
use mist::instruction::{decode, Condition, Instruction};
use mist::numeric::{
    add_i32, apply_binary, apply_unary, double_to_i32, double_to_i64, float_to_i32,
    float_to_i64, mul_i64, narrow_to_i16, narrow_to_i32, narrow_to_i8, narrow_to_u16,
    negate_double, negate_float, order_double, order_float, order_i64, shift_count_32,
    shift_count_64, shl_i64, shr_i32, sub_i64, ushr_i32, ushr_i64, BinaryOp, UnaryOp,
};
use mist::opcode;
use mist::stack::Shape;
use mist::value::MistValue;

fn one(op: u8) -> Result<(Instruction, usize), MistError> {
    let mut code = vec![0u8; 8];
    code[2] = op;
    code[3] = 0x00;
    code[4] = 0x03;
    decode(&code, 2)
}

#[test]
fn constants_decode_to_pushes() {
    assert_eq!(one(opcode::NOP), Ok((Instruction::Nop, 3)));
    assert_eq!(one(opcode::ACONST_NULL), Ok((Instruction::Push(MistValue::ObjectReference(0)), 3)));
    let ints = [
        (opcode::ICONST_M1, -1),
        (opcode::ICONST_0, 0),
        (opcode::ICONST_1, 1),
        (opcode::ICONST_2, 2),
        (opcode::ICONST_3, 3),
        (opcode::ICONST_4, 4),
        (opcode::ICONST_5, 5),
    ];
    for (op, v) in ints {
        assert_eq!(one(op), Ok((Instruction::Push(MistValue::Integer(v)), 3)));
    }
    assert_eq!(one(opcode::LCONST_0), Ok((Instruction::Push(MistValue::Long(0)), 3)));
    assert_eq!(one(opcode::LCONST_1), Ok((Instruction::Push(MistValue::Long(1)), 3)));
    assert_eq!(one(opcode::FCONST_0), Ok((Instruction::Push(MistValue::Float(0.0f32.to_bits())), 3)));
    assert_eq!(one(opcode::FCONST_1), Ok((Instruction::Push(MistValue::Float(1.0f32.to_bits())), 3)));
    assert_eq!(one(opcode::FCONST_2), Ok((Instruction::Push(MistValue::Float(2.0f32.to_bits())), 3)));
    assert_eq!(one(opcode::DCONST_0), Ok((Instruction::Push(MistValue::Double(0.0f64.to_bits())), 3)));
    assert_eq!(one(opcode::DCONST_1), Ok((Instruction::Push(MistValue::Double(1.0f64.to_bits())), 3)));
}

#[test]
fn immediates_are_big_endian() {
    assert_eq!(decode(&[0x10, 0x7f], 0), Ok((Instruction::Push(MistValue::Integer(127)), 2)));
    assert_eq!(decode(&[0x10, 0xff], 0), Ok((Instruction::Push(MistValue::Integer(-1)), 2)));
    assert_eq!(decode(&[0x11, 0x12, 0x34], 0), Ok((Instruction::Push(MistValue::Integer(0x1234)), 3)));
    assert_eq!(decode(&[0x11, 0x80, 0x00], 0), Ok((Instruction::Push(MistValue::Integer(-32768)), 3)));
    assert_eq!(decode(&[0x12, 0xff], 0), Ok((Instruction::Ldc(255), 2)));
    assert_eq!(decode(&[0x13, 0x01, 0x02], 0), Ok((Instruction::Ldc(0x0102), 3)));
    assert_eq!(decode(&[0x14, 0xff, 0xfe], 0), Ok((Instruction::Ldc2(0xfffe), 3)));
    assert_eq!(decode(&[0x84, 0x09, 0x80], 0), Ok((Instruction::Iinc(9, -128), 3)));
    assert_eq!(decode(&[0xb8, 0x01, 0x00], 0), Ok((Instruction::InvokeStatic(256), 3)));
    assert_eq!(decode(&[0xbc, 0x0a], 0), Ok((Instruction::NewArray(10), 2)));
}

#[test]
fn loads_and_stores_decode_to_slots() {
    for op in [opcode::ILOAD, opcode::LLOAD, opcode::FLOAD, opcode::DLOAD, opcode::ALOAD] {
        assert_eq!(decode(&[op, 200], 0), Ok((Instruction::Load(200), 2)));
    }
    for op in [opcode::ISTORE, opcode::LSTORE, opcode::FSTORE, opcode::DSTORE, opcode::ASTORE] {
        assert_eq!(decode(&[op, 7], 0), Ok((Instruction::Store(7), 2)));
    }
    let loads = [
        [opcode::ILOAD_0, opcode::ILOAD_1, opcode::ILOAD_2, opcode::ILOAD_3],
        [opcode::LLOAD_0, opcode::LLOAD_1, opcode::LLOAD_2, opcode::LLOAD_3],
        [opcode::FLOAD_0, opcode::FLOAD_1, opcode::FLOAD_2, opcode::FLOAD_3],
        [opcode::DLOAD_0, opcode::DLOAD_1, opcode::DLOAD_2, opcode::DLOAD_3],
        [opcode::ALOAD_0, opcode::ALOAD_1, opcode::ALOAD_2, opcode::ALOAD_3],
    ];
    for family in loads {
        for (slot, op) in family.iter().enumerate() {
            assert_eq!(one(*op), Ok((Instruction::Load(slot), 3)));
        }
    }
    let stores = [
        [opcode::ISTORE_0, opcode::ISTORE_1, opcode::ISTORE_2, opcode::ISTORE_3],
        [opcode::LSTORE_0, opcode::LSTORE_1, opcode::LSTORE_2, opcode::LSTORE_3],
        [opcode::FSTORE_0, opcode::FSTORE_1, opcode::FSTORE_2, opcode::FSTORE_3],
        [opcode::DSTORE_0, opcode::DSTORE_1, opcode::DSTORE_2, opcode::DSTORE_3],
        [opcode::ASTORE_0, opcode::ASTORE_1, opcode::ASTORE_2, opcode::ASTORE_3],
    ];
    for family in stores {
        for (slot, op) in family.iter().enumerate() {
            assert_eq!(one(*op), Ok((Instruction::Store(slot), 3)));
        }
    }
}

#[test]
fn array_instructions_carry_their_kind() {
    let loads = [
        (opcode::IALOAD, 'I'),
        (opcode::LALOAD, 'J'),
        (opcode::FALOAD, 'F'),
        (opcode::DALOAD, 'D'),
        (opcode::AALOAD, 'A'),
        (opcode::BALOAD, 'B'),
        (opcode::CALOAD, 'C'),
        (opcode::SALOAD, 'S'),
    ];
    for (op, tag) in loads {
        assert_eq!(one(op), Ok((Instruction::ArrayLoad(tag), 3)));
    }
    let stores = [
        (opcode::IASTORE, 'I'),
        (opcode::LASTORE, 'J'),
        (opcode::FASTORE, 'F'),
        (opcode::DASTORE, 'D'),
        (opcode::AASTORE, 'A'),
        (opcode::BASTORE, 'B'),
        (opcode::CASTORE, 'C'),
        (opcode::SASTORE, 'S'),
    ];
    for (op, tag) in stores {
        assert_eq!(one(op), Ok((Instruction::ArrayStore(tag), 3)));
    }
}

#[test]
fn shape_instructions() {
    let shapes = [
        (opcode::POP, Shape::Pop),
        (opcode::POP2, Shape::Pop2),
        (opcode::DUP, Shape::Dup),
        (opcode::DUP_X1, Shape::DupX1),
        (opcode::DUP_X2, Shape::DupX2),
        (opcode::DUP2, Shape::Dup2),
        (opcode::DUP2_X1, Shape::Dup2X1),
        (opcode::DUP2_X2, Shape::Dup2X2),
        (opcode::SWAP, Shape::Swap),
    ];
    for (op, shape) in shapes {
        assert_eq!(one(op), Ok((Instruction::Shape(shape), 3)));
    }
}

#[test]
fn arithmetic_instructions() {
    let binary = [
        (opcode::IADD, BinaryOp::IntAdd),
        (opcode::LADD, BinaryOp::LongAdd),
        (opcode::ISUB, BinaryOp::IntSub),
        (opcode::LSUB, BinaryOp::LongSub),
        (opcode::IMUL, BinaryOp::IntMul),
        (opcode::LMUL, BinaryOp::LongMul),
        (opcode::IDIV, BinaryOp::IntDiv),
        (opcode::LDIV, BinaryOp::LongDiv),
        (opcode::IREM, BinaryOp::IntRem),
        (opcode::LREM, BinaryOp::LongRem),
        (opcode::ISHL, BinaryOp::IntShl),
        (opcode::LSHL, BinaryOp::LongShl),
        (opcode::ISHR, BinaryOp::IntShr),
        (opcode::LSHR, BinaryOp::LongShr),
        (opcode::IUSHR, BinaryOp::IntUshr),
        (opcode::LUSHR, BinaryOp::LongUshr),
        (opcode::IAND, BinaryOp::IntAnd),
        (opcode::LAND, BinaryOp::LongAnd),
        (opcode::IOR, BinaryOp::IntOr),
        (opcode::LOR, BinaryOp::LongOr),
        (opcode::IXOR, BinaryOp::IntXor),
        (opcode::LXOR, BinaryOp::LongXor),
        (opcode::LCMP, BinaryOp::LongCompare),
        (opcode::FCMPL, BinaryOp::FloatCompareLow),
        (opcode::FCMPG, BinaryOp::FloatCompareHigh),
        (opcode::DCMPL, BinaryOp::DoubleCompareLow),
        (opcode::DCMPG, BinaryOp::DoubleCompareHigh),
    ];
    for (op, expected) in binary {
        assert_eq!(one(op), Ok((Instruction::Binary(expected), 3)));
    }
    let unary = [
        (opcode::INEG, UnaryOp::IntNeg),
        (opcode::LNEG, UnaryOp::LongNeg),
        (opcode::FNEG, UnaryOp::FloatNeg),
        (opcode::DNEG, UnaryOp::DoubleNeg),
        (opcode::I2L, UnaryOp::IntToLong),
        (opcode::L2I, UnaryOp::LongToInt),
        (opcode::F2I, UnaryOp::FloatToInt),
        (opcode::F2L, UnaryOp::FloatToLong),
        (opcode::D2I, UnaryOp::DoubleToInt),
        (opcode::D2L, UnaryOp::DoubleToLong),
        (opcode::I2B, UnaryOp::IntToByte),
        (opcode::I2C, UnaryOp::IntToChar),
        (opcode::I2S, UnaryOp::IntToShort),
    ];
    for (op, expected) in unary {
        assert_eq!(one(op), Ok((Instruction::Unary(expected), 3)));
    }
}

#[test]
fn floating_point_instructions_go_to_the_host() {
    for op in [opcode::FADD, opcode::FSUB, opcode::FMUL, opcode::FDIV, opcode::FREM] {
        assert_eq!(one(op), Ok((Instruction::HostBinary('F'), 3)));
    }
    for op in [opcode::DADD, opcode::DSUB, opcode::DMUL, opcode::DDIV, opcode::DREM] {
        assert_eq!(one(op), Ok((Instruction::HostBinary('D'), 3)));
    }
    assert_eq!(one(opcode::I2F), Ok((Instruction::HostUnary('I'), 3)));
    assert_eq!(one(opcode::I2D), Ok((Instruction::HostUnary('I'), 3)));
    assert_eq!(one(opcode::L2F), Ok((Instruction::HostUnary('J'), 3)));
    assert_eq!(one(opcode::L2D), Ok((Instruction::HostUnary('J'), 3)));
    assert_eq!(one(opcode::F2D), Ok((Instruction::HostUnary('F'), 3)));
    assert_eq!(one(opcode::D2F), Ok((Instruction::HostUnary('D'), 3)));
}

#[test]
fn branches_hold_their_target() {
    let conditions = [
        Condition::Eq,
        Condition::Ne,
        Condition::Lt,
        Condition::Ge,
        Condition::Gt,
        Condition::Le,
    ];
    let ifs = [opcode::IFEQ, opcode::IFNE, opcode::IFLT, opcode::IFGE, opcode::IFGT, opcode::IFLE];
    let icmps = [
        opcode::IF_ICMPEQ,
        opcode::IF_ICMPNE,
        opcode::IF_ICMPLT,
        opcode::IF_ICMPGE,
        opcode::IF_ICMPGT,
        opcode::IF_ICMPLE,
    ];
    for k in 0..6 {
        assert_eq!(one(ifs[k]), Ok((Instruction::If(conditions[k], 5), 5)));
        assert_eq!(one(icmps[k]), Ok((Instruction::IfInt(conditions[k], 5), 5)));
    }
    assert_eq!(one(opcode::IF_ACMPEQ), Ok((Instruction::IfRef(true, 5), 5)));
    assert_eq!(one(opcode::IF_ACMPNE), Ok((Instruction::IfRef(false, 5), 5)));
    assert_eq!(one(opcode::IFNULL), Ok((Instruction::IfNull(true, 5), 5)));
    assert_eq!(one(opcode::IFNONNULL), Ok((Instruction::IfNull(false, 5), 5)));
    assert_eq!(one(opcode::GOTO), Ok((Instruction::Goto(5), 5)));
    // backward, to the start of the code
    assert_eq!(decode(&[0, 0, 0xa7, 0xff, 0xfe], 2), Ok((Instruction::Goto(0), 5)));
    assert_eq!(decode(&[0, 0, 0xa7, 0xff, 0xfd], 2), Err(MistError::IllegalOpcode));
    assert_eq!(decode(&[0, 0, 0xa7, 0x00, 0x02], 2), Ok((Instruction::Goto(4), 5)));
    assert_eq!(decode(&[0, 0, 0xa7, 0x00, 0x03], 2), Err(MistError::IllegalOpcode));
    assert_eq!(decode(&[0xc8, 0, 0, 0, 4, 0], 0), Ok((Instruction::Goto(4), 5)));
    assert_eq!(decode(&[0, 0xc8, 0xff, 0xff, 0xff, 0xff], 1), Ok((Instruction::Goto(0), 6)));
    assert_eq!(decode(&[0xc8, 0x7f, 0xff, 0xff, 0xff], 0), Err(MistError::IllegalOpcode));
    assert_eq!(decode(&[0xc8, 0x80, 0, 0, 0], 0), Err(MistError::IllegalOpcode));
}

#[test]
fn returns_and_the_rest() {
    for op in [opcode::IRETURN, opcode::LRETURN, opcode::FRETURN, opcode::DRETURN, opcode::ARETURN] {
        assert_eq!(one(op), Ok((Instruction::Return(true), 3)));
    }
    assert_eq!(one(opcode::RETURN), Ok((Instruction::Return(false), 3)));
    assert_eq!(one(opcode::MONITORENTER), Ok((Instruction::Nop, 3)));
    assert_eq!(one(opcode::MONITOREXIT), Ok((Instruction::Nop, 3)));
    let unwired = [
        opcode::JSR,
        opcode::RET,
        opcode::TABLESWITCH,
        opcode::LOOKUPSWITCH,
        opcode::GETSTATIC,
        opcode::PUTSTATIC,
        opcode::GETFIELD,
        opcode::PUTFIELD,
        opcode::INVOKEVIRTUAL,
        opcode::INVOKESPECIAL,
        opcode::INVOKEINTERFACE,
        opcode::INVOKEDYNAMIC,
        opcode::NEW,
        opcode::ANEWARRAY,
        opcode::ARRAYLENGTH,
        opcode::ATHROW,
        opcode::CHECKCAST,
        opcode::INSTANCEOF,
        opcode::WIDE,
        opcode::MULTIANEWARRAY,
        opcode::JSR_W,
    ];
    for op in unwired {
        assert_eq!(decode(&[op], 0), Ok((Instruction::Unimplemented, 0)));
    }
}

#[test]
fn every_byte_decodes_or_is_illegal() {
    for op in 0u8..=255 {
        let code = [op, 0, 1, 0, 0, 0];
        let decoded = decode(&code, 0);
        if op > 0xc9 {
            assert_eq!(decoded, Err(MistError::IllegalOpcode), "{op:#x}");
        } else if op == opcode::GOTO_W {
            assert_eq!(decoded, Err(MistError::IllegalOpcode));
        } else {
            assert!(decoded.is_ok(), "{op:#x}");
        }
        assert_eq!(decode(&code, 6), Err(MistError::IllegalOpcode));
    }
}

#[test]
fn operands_have_to_lie_in_the_code() {
    for op in [0x10u8, 0x12, 0x15, 0x36, 0xbc] {
        assert_eq!(decode(&[op], 0), Err(MistError::IllegalOpcode));
        assert!(decode(&[op, 0], 0).is_ok());
    }
    for op in [0x11u8, 0x13, 0x14, 0x84, 0x99, 0xa7, 0xb8, 0xc6] {
        assert_eq!(decode(&[op, 0], 0), Err(MistError::IllegalOpcode));
    }
    assert_eq!(decode(&[0xc8, 0, 0, 0], 0), Err(MistError::IllegalOpcode));
    assert_eq!(decode(&[], 0), Err(MistError::IllegalOpcode));
}

#[test]
fn arithmetic_helpers_exact_values() {
    assert_eq!(add_i32(i32::MAX, i32::MAX), -2);
    assert_eq!(sub_i64(i64::MIN, i64::MAX), 1);
    assert_eq!(mul_i64(i64::MAX, 2), -2);
    assert_eq!(shift_count_32(-1), 31);
    assert_eq!(shift_count_32(32), 0);
    assert_eq!(shift_count_64(-1), 63);
    assert_eq!(shift_count_64(65), 1);
    assert_eq!(shl_i64(3, 62), i64::MIN + (1 << 62));
    assert_eq!(shr_i32(i32::MIN, 31), -1);
    assert_eq!(ushr_i32(i32::MIN, 31), 1);
    assert_eq!(ushr_i64(i64::MIN, 1), 1 << 62);
    assert_eq!(narrow_to_i32(-1), -1);
    assert_eq!(narrow_to_i32(0x8000_0000), i32::MIN);
    assert_eq!(narrow_to_i16(0xffff), -1);
    assert_eq!(narrow_to_i8(0x7f), 127);
    assert_eq!(narrow_to_u16(-2), 0xfffe);
    assert_eq!(order_i64(-1, 1), -1);
    assert_eq!(order_double(1.0f64.to_bits(), 1.0f64.to_bits(), -1), 0);
    assert_eq!(order_double(0.0f64.to_bits(), (-0.0f64).to_bits(), 1), 0);
    assert_eq!(order_float(2.0f32.to_bits(), 1.0f32.to_bits(), -1), 1);
    assert_eq!(order_float(f32::NAN.to_bits(), 1.0f32.to_bits(), 7), 7);
    assert_eq!(negate_double(0), 0x8000_0000_0000_0000);
    assert_eq!(negate_float(0x8000_0001), 1);
    assert_eq!(double_to_i32(1e10f64.to_bits()), i32::MAX);
    assert_eq!(double_to_i64(1e10f64.to_bits()), 10_000_000_000);
    assert_eq!(float_to_i32((-7.9f32).to_bits()), -7);
    assert_eq!(float_to_i64(1e10f32.to_bits()), 10_000_000_000);
}

#[test]
fn operations_on_cells() {
    assert_eq!(
        apply_binary(BinaryOp::IntAdd, MistValue::Integer(2), MistValue::Integer(5)),
        Ok(MistValue::Integer(7))
    );
    assert_eq!(
        apply_binary(BinaryOp::IntAdd, MistValue::Long(2), MistValue::Long(5)),
        Err(MistError::TypeMismatch)
    );
    assert_eq!(
        apply_binary(BinaryOp::LongAdd, MistValue::Integer(2), MistValue::Integer(5)),
        Err(MistError::TypeMismatch)
    );
    assert_eq!(
        apply_binary(BinaryOp::LongCompare, MistValue::Long(2), MistValue::Integer(5)),
        Err(MistError::TypeMismatch)
    );
    assert_eq!(
        apply_binary(BinaryOp::DoubleCompareLow, MistValue::Float(2), MistValue::Float(5)),
        Err(MistError::TypeMismatch)
    );
    assert_eq!(
        apply_binary(BinaryOp::IntDiv, MistValue::Integer(2), MistValue::Integer(0)),
        Err(MistError::ArithmeticError)
    );
    assert_eq!(
        apply_unary(UnaryOp::IntNeg, MistValue::Integer(2)),
        Ok(MistValue::Integer(-2))
    );
    assert_eq!(apply_unary(UnaryOp::IntNeg, MistValue::Long(2)), Err(MistError::TypeMismatch));
    assert_eq!(
        apply_unary(UnaryOp::DoubleToLong, MistValue::Float(2)),
        Err(MistError::TypeMismatch)
    );
}
