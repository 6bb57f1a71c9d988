//! The instruction set, by opcode byte.

use vstd::prelude::*;

verus! {

pub type Opcode = u8;

/// Does nothing.
pub const NOP: Opcode = 0x00;

/// Push a constant: the null reference, an int from -1 to 5, a long, a float or a double.
pub const ACONST_NULL: Opcode = 0x01;

pub const ICONST_M1: Opcode = 0x02;

pub const ICONST_0: Opcode = 0x03;

pub const ICONST_1: Opcode = 0x04;

pub const ICONST_2: Opcode = 0x05;

pub const ICONST_3: Opcode = 0x06;

pub const ICONST_4: Opcode = 0x07;

pub const ICONST_5: Opcode = 0x08;

pub const LCONST_0: Opcode = 0x09;

pub const LCONST_1: Opcode = 0x0a;

pub const FCONST_0: Opcode = 0x0b;

pub const FCONST_1: Opcode = 0x0c;

pub const FCONST_2: Opcode = 0x0d;

pub const DCONST_0: Opcode = 0x0e;

pub const DCONST_1: Opcode = 0x0f;

/// Push the signed immediate that follows, one byte or two.
pub const BIPUSH: Opcode = 0x10;

pub const SIPUSH: Opcode = 0x11;

/// Push a constant of the pool, by its index.
pub const LDC: Opcode = 0x12;

pub const LDC_W: Opcode = 0x13;

pub const LDC2_W: Opcode = 0x14;

/// Push the cell of a local slot: the slot that follows, or one of the slots 0 to 3.
pub const ILOAD: Opcode = 0x15;

pub const LLOAD: Opcode = 0x16;

pub const FLOAD: Opcode = 0x17;

pub const DLOAD: Opcode = 0x18;

pub const ALOAD: Opcode = 0x19;

pub const ILOAD_0: Opcode = 0x1a;

pub const ILOAD_1: Opcode = 0x1b;

pub const ILOAD_2: Opcode = 0x1c;

pub const ILOAD_3: Opcode = 0x1d;

pub const LLOAD_0: Opcode = 0x1e;

pub const LLOAD_1: Opcode = 0x1f;

pub const LLOAD_2: Opcode = 0x20;

pub const LLOAD_3: Opcode = 0x21;

pub const FLOAD_0: Opcode = 0x22;

pub const FLOAD_1: Opcode = 0x23;

pub const FLOAD_2: Opcode = 0x24;

pub const FLOAD_3: Opcode = 0x25;

pub const DLOAD_0: Opcode = 0x26;

pub const DLOAD_1: Opcode = 0x27;

pub const DLOAD_2: Opcode = 0x28;

pub const DLOAD_3: Opcode = 0x29;

pub const ALOAD_0: Opcode = 0x2a;

pub const ALOAD_1: Opcode = 0x2b;

pub const ALOAD_2: Opcode = 0x2c;

pub const ALOAD_3: Opcode = 0x2d;

/// Push an element of an array.
pub const IALOAD: Opcode = 0x2e;

pub const LALOAD: Opcode = 0x2f;

pub const FALOAD: Opcode = 0x30;

pub const DALOAD: Opcode = 0x31;

pub const AALOAD: Opcode = 0x32;

pub const BALOAD: Opcode = 0x33;

pub const CALOAD: Opcode = 0x34;

pub const SALOAD: Opcode = 0x35;

/// Pop the top cell into a local slot: the slot that follows, or one of the slots 0 to 3.
pub const ISTORE: Opcode = 0x36;

pub const LSTORE: Opcode = 0x37;

pub const FSTORE: Opcode = 0x38;

pub const DSTORE: Opcode = 0x39;

pub const ASTORE: Opcode = 0x3a;

pub const ISTORE_0: Opcode = 0x3b;

pub const ISTORE_1: Opcode = 0x3c;

pub const ISTORE_2: Opcode = 0x3d;

pub const ISTORE_3: Opcode = 0x3e;

pub const LSTORE_0: Opcode = 0x3f;

pub const LSTORE_1: Opcode = 0x40;

pub const LSTORE_2: Opcode = 0x41;

pub const LSTORE_3: Opcode = 0x42;

pub const FSTORE_0: Opcode = 0x43;

pub const FSTORE_1: Opcode = 0x44;

pub const FSTORE_2: Opcode = 0x45;

pub const FSTORE_3: Opcode = 0x46;

pub const DSTORE_0: Opcode = 0x47;

pub const DSTORE_1: Opcode = 0x48;

pub const DSTORE_2: Opcode = 0x49;

pub const DSTORE_3: Opcode = 0x4a;

pub const ASTORE_0: Opcode = 0x4b;

pub const ASTORE_1: Opcode = 0x4c;

pub const ASTORE_2: Opcode = 0x4d;

pub const ASTORE_3: Opcode = 0x4e;

/// Pop a cell into an element of an array.
pub const IASTORE: Opcode = 0x4f;

pub const LASTORE: Opcode = 0x50;

pub const FASTORE: Opcode = 0x51;

pub const DASTORE: Opcode = 0x52;

pub const AASTORE: Opcode = 0x53;

pub const BASTORE: Opcode = 0x54;

pub const CASTORE: Opcode = 0x55;

pub const SASTORE: Opcode = 0x56;

/// Move cells on the stack.
pub const POP: Opcode = 0x57;

pub const POP2: Opcode = 0x58;

pub const DUP: Opcode = 0x59;

pub const DUP_X1: Opcode = 0x5a;

pub const DUP_X2: Opcode = 0x5b;

pub const DUP2: Opcode = 0x5c;

pub const DUP2_X1: Opcode = 0x5d;

pub const DUP2_X2: Opcode = 0x5e;

pub const SWAP: Opcode = 0x5f;

/// Arithmetic on the top cells.
pub const IADD: Opcode = 0x60;

pub const LADD: Opcode = 0x61;

pub const FADD: Opcode = 0x62;

pub const DADD: Opcode = 0x63;

pub const ISUB: Opcode = 0x64;

pub const LSUB: Opcode = 0x65;

pub const FSUB: Opcode = 0x66;

pub const DSUB: Opcode = 0x67;

pub const IMUL: Opcode = 0x68;

pub const LMUL: Opcode = 0x69;

pub const FMUL: Opcode = 0x6a;

pub const DMUL: Opcode = 0x6b;

pub const IDIV: Opcode = 0x6c;

pub const LDIV: Opcode = 0x6d;

pub const FDIV: Opcode = 0x6e;

pub const DDIV: Opcode = 0x6f;

pub const IREM: Opcode = 0x70;

pub const LREM: Opcode = 0x71;

pub const FREM: Opcode = 0x72;

pub const DREM: Opcode = 0x73;

pub const INEG: Opcode = 0x74;

pub const LNEG: Opcode = 0x75;

pub const FNEG: Opcode = 0x76;

pub const DNEG: Opcode = 0x77;

pub const ISHL: Opcode = 0x78;

pub const LSHL: Opcode = 0x79;

pub const ISHR: Opcode = 0x7a;

pub const LSHR: Opcode = 0x7b;

pub const IUSHR: Opcode = 0x7c;

pub const LUSHR: Opcode = 0x7d;

pub const IAND: Opcode = 0x7e;

pub const LAND: Opcode = 0x7f;

pub const IOR: Opcode = 0x80;

pub const LOR: Opcode = 0x81;

pub const IXOR: Opcode = 0x82;

pub const LXOR: Opcode = 0x83;

/// Adds a signed byte to the int in a local slot.
pub const IINC: Opcode = 0x84;

/// Convert the top cell to another kind.
pub const I2L: Opcode = 0x85;

pub const I2F: Opcode = 0x86;

pub const I2D: Opcode = 0x87;

pub const L2I: Opcode = 0x88;

pub const L2F: Opcode = 0x89;

pub const L2D: Opcode = 0x8a;

pub const F2I: Opcode = 0x8b;

pub const F2L: Opcode = 0x8c;

pub const F2D: Opcode = 0x8d;

pub const D2I: Opcode = 0x8e;

pub const D2L: Opcode = 0x8f;

pub const D2F: Opcode = 0x90;

pub const I2B: Opcode = 0x91;

pub const I2C: Opcode = 0x92;

pub const I2S: Opcode = 0x93;

/// Three-way comparisons.
pub const LCMP: Opcode = 0x94;

pub const FCMPL: Opcode = 0x95;

pub const FCMPG: Opcode = 0x96;

pub const DCMPL: Opcode = 0x97;

pub const DCMPG: Opcode = 0x98;

/// Branch on a comparison, by a signed 16-bit offset from the instruction.
pub const IFEQ: Opcode = 0x99;

pub const IFNE: Opcode = 0x9a;

pub const IFLT: Opcode = 0x9b;

pub const IFGE: Opcode = 0x9c;

pub const IFGT: Opcode = 0x9d;

pub const IFLE: Opcode = 0x9e;

pub const IF_ICMPEQ: Opcode = 0x9f;

pub const IF_ICMPNE: Opcode = 0xa0;

pub const IF_ICMPLT: Opcode = 0xa1;

pub const IF_ICMPGE: Opcode = 0xa2;

pub const IF_ICMPGT: Opcode = 0xa3;

pub const IF_ICMPLE: Opcode = 0xa4;

pub const IF_ACMPEQ: Opcode = 0xa5;

pub const IF_ACMPNE: Opcode = 0xa6;

/// Jumps.
pub const GOTO: Opcode = 0xa7;

pub const JSR: Opcode = 0xa8;

pub const RET: Opcode = 0xa9;

/// Switches.
pub const TABLESWITCH: Opcode = 0xaa;

pub const LOOKUPSWITCH: Opcode = 0xab;

/// End the frame, with or without a result.
pub const IRETURN: Opcode = 0xac;

pub const LRETURN: Opcode = 0xad;

pub const FRETURN: Opcode = 0xae;

pub const DRETURN: Opcode = 0xaf;

pub const ARETURN: Opcode = 0xb0;

pub const RETURN: Opcode = 0xb1;

/// Field access.
pub const GETSTATIC: Opcode = 0xb2;

pub const PUTSTATIC: Opcode = 0xb3;

pub const GETFIELD: Opcode = 0xb4;

pub const PUTFIELD: Opcode = 0xb5;

/// Method invocation, by a method reference of the pool.
pub const INVOKEVIRTUAL: Opcode = 0xb6;

pub const INVOKESPECIAL: Opcode = 0xb7;

pub const INVOKESTATIC: Opcode = 0xb8;

pub const INVOKEINTERFACE: Opcode = 0xb9;

pub const INVOKEDYNAMIC: Opcode = 0xba;

/// Objects and arrays.
pub const NEW: Opcode = 0xbb;

pub const NEWARRAY: Opcode = 0xbc;

pub const ANEWARRAY: Opcode = 0xbd;

pub const ARRAYLENGTH: Opcode = 0xbe;

/// Exceptions, casts, monitors, and the prefix for wide indices.
pub const ATHROW: Opcode = 0xbf;

pub const CHECKCAST: Opcode = 0xc0;

pub const INSTANCEOF: Opcode = 0xc1;

pub const MONITORENTER: Opcode = 0xc2;

pub const MONITOREXIT: Opcode = 0xc3;

pub const WIDE: Opcode = 0xc4;

pub const MULTIANEWARRAY: Opcode = 0xc5;

/// Branch on the null reference, and jumps by a 32-bit offset.
pub const IFNULL: Opcode = 0xc6;

pub const IFNONNULL: Opcode = 0xc7;

pub const GOTO_W: Opcode = 0xc8;

pub const JSR_W: Opcode = 0xc9;

} // verus!
