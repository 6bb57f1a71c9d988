use mist::class::attribute_info::{AttributeInfo, Code};
use mist::class::method::MethodInfo;
use mist::class::native;
use mist::class::pool::Entry;
use mist::class::{Class, Context};
use mist::error::MistError;
use mist::local::Local;
use mist::host::HostCall;
use mist::run::{RuntimeContext, Step};
use mist::value::MistValue;

fn bytecode(code: Vec<u8>, max_stack: u16, max_local: u16) -> Code {
    Code {
        native: None,
        max_stack,
        max_local,
        code,
        exception_table: Vec::new(),
        attributes: Vec::new(),
    }
}

fn method(name: &str, descriptor: &str, code: Code) -> MethodInfo {
    MethodInfo {
        access_flags: 0x0009,
        name: name.to_string(),
        descriptor: descriptor.to_string(),
        attributes: vec![AttributeInfo::Code(code)],
    }
}

fn class_with(name: &str, constant_pool: Vec<Entry>, methods: Vec<MethodInfo>) -> Class {
    let mut class = Class::empty();
    class.this_class = name.to_string();
    class.constant_pool = constant_pool;
    class.methods = methods;
    class
}

fn main_class(code: Vec<u8>, max_stack: u16, max_local: u16) -> Class {
    class_with(
        "Main",
        Vec::new(),
        vec![method("main", "([Ljava/lang/String;)J", bytecode(code, max_stack, max_local))],
    )
}

fn boot_and_run(class: Class) -> Step {
    let mut context = Context::new();
    context.add_class(class).unwrap();
    let mut machine = RuntimeContext::boot(&context, "Main").expect("main is there");
    machine.run(10_000)
}

fn run_bytes(code: Vec<u8>, max_stack: u16, max_local: u16) -> Step {
    boot_and_run(main_class(code, max_stack, max_local))
}

fn utf8(text: &str) -> Entry {
    Entry::Utf8Info { bytes: text.to_string() }
}

fn unused() -> Entry {
    Entry::IntegerInfo { bytes: 0 }
}

/// A pool whose entry 6 is a reference to the method `name` of `class_name`.
fn pool_with_method(class_name: &str, name: &str, descriptor: &str) -> Vec<Entry> {
    vec![
        unused(),
        utf8(class_name),
        Entry::ClassInfo { name_index: 1 },
        utf8(name),
        utf8(descriptor),
        Entry::NameAndTypeInfo { index: 3, descriptor_index: 4 },
        Entry::MethodRefInfo { class_index: 2, name_and_type_index: 5 },
    ]
}

#[test]
fn empty_return_gives_no_value() {
    assert_eq!(run_bytes(vec![0xb1], 0, 0), Step::Returned(None));
}

#[test]
fn boot_of_unknown_class_is_none() {
    let context = Context::new();
    assert!(RuntimeContext::boot(&context, "Nowhere").is_none());
}

#[test]
fn boot_without_main_is_none() {
    let mut context = Context::new();
    let class = class_with(
        "Main",
        Vec::new(),
        vec![method("main", "()V", bytecode(vec![0xb1], 0, 0))],
    );
    context.add_class(class).unwrap();
    assert!(RuntimeContext::boot(&context, "Main").is_none());
}

#[test]
fn goto_skips_to_its_target() {
    // goto +4; return; iconst_1; ireturn
    assert_eq!(
        run_bytes(vec![0xa7, 0x00, 0x04, 0xb1, 0x04, 0xac], 1, 0),
        Step::Returned(Some(MistValue::Integer(1)))
    );
}

#[test]
fn goto_then_ifeq_loops_back_to_areturn() {
    // goto +5; aconst_null; areturn; iconst_0; ifeq -3 (to aconst_null)
    let code = vec![0xa7, 0x00, 0x05, 0x01, 0xb0, 0x03, 0x99, 0xff, 0xfd];
    assert_eq!(run_bytes(code, 1, 0), Step::Returned(Some(MistValue::ObjectReference(0))));
}

#[test]
fn goto_out_of_the_code_is_illegal() {
    // goto +5; aconst_null; areturn; iconst_0; ifeq +3: the last branch leads to offset 9 of 9 bytes
    let code = vec![0xa7, 0x00, 0x05, 0x01, 0xb0, 0x03, 0x99, 0x00, 0x03];
    assert_eq!(run_bytes(code, 1, 0), Step::Failed(MistError::IllegalOpcode));
}

#[test]
fn goto_w_takes_a_wide_offset() {
    // goto_w +6; return; iconst_2; ireturn
    let code = vec![0xc8, 0x00, 0x00, 0x00, 0x06, 0xb1, 0x05, 0xac];
    assert_eq!(run_bytes(code, 1, 0), Step::Returned(Some(MistValue::Integer(2))));
}

#[test]
fn arithmetic_adds_two_and_five() {
    assert_eq!(
        run_bytes(vec![0x05, 0x08, 0x60, 0xac], 2, 0),
        Step::Returned(Some(MistValue::Integer(7)))
    );
}

#[test]
fn branch_taken_on_zero() {
    // iconst_0; ifeq +4; nop; iconst_5; ireturn
    let code = vec![0x03, 0x99, 0x00, 0x04, 0x00, 0x08, 0xac];
    assert_eq!(run_bytes(code, 1, 0), Step::Returned(Some(MistValue::Integer(5))));
}

#[test]
fn branch_not_taken_falls_through_to_nop() {
    // iconst_1; ifeq +5; nop; return; iconst_5; ireturn
    let code = vec![0x04, 0x99, 0x00, 0x05, 0x00, 0xb1, 0x08, 0xac];
    let mut context = Context::new();
    context.add_class(main_class(code, 1, 0)).unwrap();
    let mut machine = RuntimeContext::boot(&context, "Main").unwrap();
    assert_eq!(machine.step(), Step::Running);
    assert_eq!(machine.step(), Step::Running);
    assert_eq!(machine.frame().unwrap().pc(), 4);
    assert_eq!(machine.step(), Step::Running);
    assert_eq!(machine.step(), Step::Returned(None));
}

#[test]
fn array_store_then_load() {
    // iconst_3; newarray int; dup; iconst_0; bipush 42; iastore; iconst_0; iaload; ireturn
    let code = vec![0x06, 0xbc, 10, 0x59, 0x03, 0x10, 42, 0x4f, 0x03, 0x2e, 0xac];
    assert_eq!(run_bytes(code, 4, 0), Step::Returned(Some(MistValue::Integer(42))));
}

#[test]
fn array_index_out_of_bounds() {
    // iconst_3; newarray int; iconst_3; iaload
    let code = vec![0x06, 0xbc, 10, 0x06, 0x2e, 0xac];
    assert_eq!(run_bytes(code, 4, 0), Step::Failed(MistError::ArrayBounds));
}

#[test]
fn array_of_negative_length() {
    // iconst_m1; newarray int
    let code = vec![0x02, 0xbc, 10, 0xb1];
    assert_eq!(run_bytes(code, 4, 0), Step::Failed(MistError::ArrayBounds));
}

#[test]
fn load_through_null_reference() {
    // aconst_null; iconst_0; iaload
    let code = vec![0x01, 0x03, 0x2e, 0xac];
    assert_eq!(run_bytes(code, 4, 0), Step::Failed(MistError::NullReference));
}

#[test]
fn byte_array_keeps_low_bits() {
    // iconst_1; newarray byte; dup; iconst_0; sipush 0x0180; bastore; iconst_0; baload; ireturn
    let code = vec![0x04, 0xbc, 8, 0x59, 0x03, 0x11, 0x01, 0x80, 0x54, 0x03, 0x33, 0xac];
    assert_eq!(run_bytes(code, 4, 0), Step::Returned(Some(MistValue::Integer(-128))));
}

#[test]
fn int_store_into_long_array_is_a_mismatch() {
    // iconst_1; newarray long; iconst_0; iconst_5; iastore
    let code = vec![0x04, 0xbc, 11, 0x03, 0x08, 0x4f, 0xb1];
    assert_eq!(run_bytes(code, 4, 0), Step::Failed(MistError::TypeMismatch));
}

#[test]
fn division_by_zero_is_an_arithmetic_error() {
    assert_eq!(
        run_bytes(vec![0x04, 0x03, 0x6c, 0xac], 2, 0),
        Step::Failed(MistError::ArithmeticError)
    );
}

#[test]
fn failed_step_leaves_the_machine_in_place() {
    let mut context = Context::new();
    context.add_class(main_class(vec![0x04, 0x03, 0x6c, 0xac], 2, 0)).unwrap();
    let mut machine = RuntimeContext::boot(&context, "Main").unwrap();
    assert_eq!(machine.run(10), Step::Failed(MistError::ArithmeticError));
    let frame = machine.frame().unwrap();
    assert_eq!(frame.pc(), 2);
    assert_eq!(frame.stack().depth(), 2);
    assert_eq!(machine.step(), Step::Failed(MistError::ArithmeticError));
}

#[test]
fn float_division_by_zero_goes_to_the_host() {
    // fconst_1; fconst_0; fdiv; freturn
    let mut context = Context::new();
    context.add_class(main_class(vec![0x0c, 0x0b, 0x6e, 0xae], 2, 0)).unwrap();
    let mut machine = RuntimeContext::boot(&context, "Main").unwrap();
    let step = machine.run(10);
    assert_eq!(
        step,
        Step::Host(HostCall::Binary {
            opcode: 0x6e,
            lhs: MistValue::Float(1.0f32.to_bits()),
            rhs: MistValue::Float(0.0f32.to_bits()),
        })
    );
    let quotient = 1.0f32 / 0.0f32;
    assert_eq!(machine.resume(Some(MistValue::Float(quotient.to_bits()))), Step::Running);
    assert_eq!(
        machine.run(10),
        Step::Returned(Some(MistValue::Float(f32::INFINITY.to_bits())))
    );
}

#[test]
fn double_conversion_goes_to_the_host() {
    // iconst_3; i2d; dreturn
    let mut context = Context::new();
    context.add_class(main_class(vec![0x06, 0x87, 0xaf], 2, 0)).unwrap();
    let mut machine = RuntimeContext::boot(&context, "Main").unwrap();
    assert_eq!(
        machine.run(10),
        Step::Host(HostCall::Unary { opcode: 0x87, value: MistValue::Integer(3) })
    );
    assert_eq!(machine.resume(Some(MistValue::Double(3.0f64.to_bits()))), Step::Running);
    assert_eq!(machine.run(10), Step::Returned(Some(MistValue::Double(3.0f64.to_bits()))));
}

#[test]
fn static_call_of_native_sqrt() {
    // dconst_1; invokestatic #6; dreturn
    let pool = pool_with_method("java/lang/Math", "sqrt", "(D)D");
    let class = class_with(
        "Main",
        pool,
        vec![method(
            "main",
            "([Ljava/lang/String;)J",
            bytecode(vec![0x0f, 0xb8, 0x00, 0x06, 0xaf], 2, 1),
        )],
    );
    let mut context = Context::new();
    context.add_class(class).unwrap();
    let mut machine = RuntimeContext::boot(&context, "Main").unwrap();
    let step = machine.run(100);
    let locals = match step {
        Step::Host(HostCall::Native { id, locals }) => {
            assert_eq!(id, native::SQRT);
            locals
        }
        other => panic!("unexpected {other:?}"),
    };
    assert_eq!(locals.len(), 1);
    let argument = match locals.load(0) {
        Ok(MistValue::Double(bits)) => f64::from_bits(bits),
        other => panic!("unexpected {other:?}"),
    };
    assert_eq!(argument, 1.0);
    let answer = MistValue::Double(argument.sqrt().to_bits());
    assert_eq!(machine.resume(Some(answer)), Step::Running);
    match machine.run(100) {
        Step::Returned(Some(MistValue::Double(bits))) => assert_eq!(f64::from_bits(bits), 1.0),
        other => panic!("unexpected {other:?}"),
    }
}

#[test]
fn static_call_passes_arguments_in_order() {
    // main: iconst_5; iconst_2; invokestatic #6; ireturn
    // sub(II)I: iload_0; iload_1; isub; ireturn
    let pool = pool_with_method("Main", "sub", "(II)I");
    let class = class_with(
        "Main",
        pool,
        vec![
            method(
                "main",
                "([Ljava/lang/String;)J",
                bytecode(vec![0x08, 0x05, 0xb8, 0x00, 0x06, 0xac], 2, 1),
            ),
            method("sub", "(II)I", bytecode(vec![0x1a, 0x1b, 0x64, 0xac], 2, 2)),
        ],
    );
    assert_eq!(boot_and_run(class), Step::Returned(Some(MistValue::Integer(3))));
}

#[test]
fn wide_argument_takes_two_slots_of_a_bytecode_frame() {
    // main: lconst_1; iconst_4; invokestatic #6; ireturn
    // pick(JI)I: iload_2; ireturn
    let pool = pool_with_method("Main", "pick", "(JI)I");
    let class = class_with(
        "Main",
        pool,
        vec![
            method(
                "main",
                "([Ljava/lang/String;)J",
                bytecode(vec![0x0a, 0x07, 0xb8, 0x00, 0x06, 0xac], 2, 1),
            ),
            method("pick", "(JI)I", bytecode(vec![0x1c, 0xac], 1, 3)),
        ],
    );
    assert_eq!(boot_and_run(class), Step::Returned(Some(MistValue::Integer(4))));
}

#[test]
fn call_with_too_small_a_frame_is_a_local_index_error() {
    let pool = pool_with_method("Main", "pick", "(JI)I");
    let class = class_with(
        "Main",
        pool,
        vec![
            method(
                "main",
                "([Ljava/lang/String;)J",
                bytecode(vec![0x0a, 0x07, 0xb8, 0x00, 0x06, 0xac], 2, 1),
            ),
            method("pick", "(JI)I", bytecode(vec![0x1c, 0xac], 1, 2)),
        ],
    );
    assert_eq!(boot_and_run(class), Step::Failed(MistError::LocalIndex));
}

#[test]
fn call_of_a_missing_method_is_an_invalid_reference() {
    let pool = pool_with_method("Main", "absent", "()V");
    let class = class_with(
        "Main",
        pool,
        vec![method(
            "main",
            "([Ljava/lang/String;)J",
            bytecode(vec![0xb8, 0x00, 0x06, 0xb1], 2, 1),
        )],
    );
    assert_eq!(boot_and_run(class), Step::Failed(MistError::InvalidReference));
}

#[test]
fn call_through_a_wrong_pool_entry_is_an_invalid_reference() {
    let pool = pool_with_method("Main", "absent", "()V");
    let class = class_with(
        "Main",
        pool,
        vec![method(
            "main",
            "([Ljava/lang/String;)J",
            bytecode(vec![0xb8, 0x00, 0x05, 0xb1], 2, 1),
        )],
    );
    assert_eq!(boot_and_run(class), Step::Failed(MistError::InvalidReference));
}

#[test]
fn call_with_a_broken_descriptor_is_an_invalid_format() {
    let pool = pool_with_method("Main", "odd", "(Q)V");
    let class = class_with(
        "Main",
        pool,
        vec![
            method(
                "main",
                "([Ljava/lang/String;)J",
                bytecode(vec![0xb8, 0x00, 0x06, 0xb1], 2, 1),
            ),
            method("odd", "(Q)V", bytecode(vec![0xb1], 0, 1)),
        ],
    );
    assert_eq!(boot_and_run(class), Step::Failed(MistError::InvalidFormat));
}

#[test]
fn native_time_is_asked_of_the_host() {
    // invokestatic #6; lreturn
    let pool = pool_with_method("java/lang/System", "currentTimeMillis", "()J");
    let class = class_with(
        "Main",
        pool,
        vec![method(
            "main",
            "([Ljava/lang/String;)J",
            bytecode(vec![0xb8, 0x00, 0x06, 0xad], 2, 1),
        )],
    );
    let mut context = Context::new();
    context.add_class(class).unwrap();
    let mut machine = RuntimeContext::boot(&context, "Main").unwrap();
    assert_eq!(
        machine.run(100),
        Step::Host(HostCall::Native { id: native::CURRENT_TIME_MILLIS, locals: Local::new(0) })
    );
    assert_eq!(machine.resume(Some(MistValue::Long(1_700_000_000_000))), Step::Running);
    assert_eq!(machine.run(100), Step::Returned(Some(MistValue::Long(1_700_000_000_000))));
}

#[test]
fn native_code_at_the_top_returns_the_answer() {
    let context = Context::new();
    let code = Code::native(native::SQRT, 1);
    let pool: Vec<Entry> = Vec::new();
    let mut local = Local::new(1);
    local.store(0, MistValue::Double(4.0f64.to_bits())).unwrap();
    let mut machine = RuntimeContext::new(&code, &context, &pool, local);
    match machine.step() {
        Step::Host(HostCall::Native { id, locals }) => {
            assert_eq!(id, native::SQRT);
            assert_eq!(locals.load(0), Ok(MistValue::Double(4.0f64.to_bits())));
        }
        other => panic!("unexpected {other:?}"),
    }
    assert_eq!(
        machine.resume(Some(MistValue::Double(2.0f64.to_bits()))),
        Step::Returned(Some(MistValue::Double(2.0f64.to_bits())))
    );
    assert_eq!(machine.step(), Step::Returned(None));
}

#[test]
fn illegal_opcode_is_reported() {
    assert_eq!(run_bytes(vec![0xff], 0, 0), Step::Failed(MistError::IllegalOpcode));
    assert_eq!(run_bytes(vec![0xca], 0, 0), Step::Failed(MistError::IllegalOpcode));
}

#[test]
fn running_off_the_end_is_illegal() {
    assert_eq!(run_bytes(vec![0x00], 0, 0), Step::Failed(MistError::IllegalOpcode));
}

#[test]
fn truncated_operand_is_illegal() {
    assert_eq!(run_bytes(vec![0x10], 1, 0), Step::Failed(MistError::IllegalOpcode));
}

#[test]
fn unwired_opcode_is_unimplemented() {
    assert_eq!(run_bytes(vec![0xbf], 1, 0), Step::Failed(MistError::Unimplemented));
    assert_eq!(run_bytes(vec![0xb6, 0, 1], 1, 0), Step::Failed(MistError::Unimplemented));
    assert_eq!(run_bytes(vec![0xaa], 1, 0), Step::Failed(MistError::Unimplemented));
}

#[test]
fn monitor_instructions_do_nothing() {
    assert_eq!(
        run_bytes(vec![0x04, 0xc2, 0xc3, 0xac], 1, 0),
        Step::Returned(Some(MistValue::Integer(1)))
    );
}

#[test]
fn push_beyond_max_stack_overflows() {
    assert_eq!(run_bytes(vec![0x04, 0x04, 0xb1], 1, 0), Step::Failed(MistError::StackOverflow));
}

#[test]
fn pop_from_empty_stack_underflows() {
    assert_eq!(run_bytes(vec![0x57, 0xb1], 1, 0), Step::Failed(MistError::StackUnderflow));
    assert_eq!(run_bytes(vec![0xac], 1, 0), Step::Failed(MistError::StackUnderflow));
}

#[test]
fn local_out_of_range_is_a_local_index_error() {
    assert_eq!(run_bytes(vec![0x1b, 0xb1], 1, 1), Step::Failed(MistError::LocalIndex));
    assert_eq!(run_bytes(vec![0x04, 0x36, 0x05, 0xb1], 1, 1), Step::Failed(MistError::LocalIndex));
}

#[test]
fn operand_of_wrong_kind_is_a_mismatch() {
    // lconst_1; iconst_1; iadd
    assert_eq!(run_bytes(vec![0x0a, 0x04, 0x60, 0xb1], 2, 0), Step::Failed(MistError::TypeMismatch));
}

#[test]
fn budget_bounds_an_endless_loop() {
    // goto 0
    let mut context = Context::new();
    context.add_class(main_class(vec![0xa7, 0x00, 0x00], 0, 0)).unwrap();
    let mut machine = RuntimeContext::boot(&context, "Main").unwrap();
    assert_eq!(machine.run(1000), Step::Running);
    assert_eq!(machine.frame().unwrap().pc(), 0);
}

#[test]
fn loop_counts_with_iinc() {
    // iconst_0; istore_0; iinc 0 3; iload_0; bipush 9; if_icmplt -6; iload_0; ireturn
    let code = vec![
        0x03, 0x3b, 0x84, 0x00, 0x03, 0x1a, 0x10, 0x09, 0xa1, 0xff, 0xfa, 0x1a, 0xac,
    ];
    assert_eq!(run_bytes(code, 2, 1), Step::Returned(Some(MistValue::Integer(9))));
}

#[test]
fn iinc_takes_a_signed_byte() {
    // iconst_5; istore_0; iinc 0 -7; iload_0; ireturn
    let code = vec![0x08, 0x3b, 0x84, 0x00, 0xf9, 0x1a, 0xac];
    assert_eq!(run_bytes(code, 1, 1), Step::Returned(Some(MistValue::Integer(-2))));
}

#[test]
fn if_icmp_compares_first_pushed_with_second() {
    // iconst_1; iconst_2; if_icmplt +5; iconst_0; ireturn; iconst_1; ireturn
    let code = vec![0x04, 0x05, 0xa1, 0x00, 0x05, 0x03, 0xac, 0x04, 0xac];
    assert_eq!(run_bytes(code, 2, 0), Step::Returned(Some(MistValue::Integer(1))));
}

#[test]
fn ifnull_and_ifnonnull() {
    // aconst_null; ifnull +5; iconst_0; ireturn; iconst_1; ireturn
    let code = vec![0x01, 0xc6, 0x00, 0x05, 0x03, 0xac, 0x04, 0xac];
    assert_eq!(run_bytes(code, 1, 0), Step::Returned(Some(MistValue::Integer(1))));
    let code = vec![0x01, 0xc7, 0x00, 0x05, 0x03, 0xac, 0x04, 0xac];
    assert_eq!(run_bytes(code, 1, 0), Step::Returned(Some(MistValue::Integer(0))));
}

#[test]
fn bipush_and_sipush_sign_extend() {
    assert_eq!(
        run_bytes(vec![0x10, 0x80, 0xac], 1, 0),
        Step::Returned(Some(MistValue::Integer(-128)))
    );
    assert_eq!(
        run_bytes(vec![0x11, 0xff, 0xfe, 0xac], 1, 0),
        Step::Returned(Some(MistValue::Integer(-2)))
    );
    assert_eq!(
        run_bytes(vec![0x11, 0x01, 0x00, 0xac], 1, 0),
        Step::Returned(Some(MistValue::Integer(256)))
    );
}

#[test]
fn ldc_pushes_pool_constants() {
    let pool = vec![
        unused(),
        Entry::IntegerInfo { bytes: 0xffff_fffe },
        Entry::FloatInfo { bytes: 0x4048_f5c3 },
        Entry::LongInfo { high_bytes: 0xffff_ffff, low_bytes: 0xffff_fffd },
        unused(),
        Entry::DoubleInfo { high_bytes: 0x4000_0000, low_bytes: 0 },
        unused(),
        utf8("text"),
        Entry::StringInfo { string_index: 7 },
    ];
    let run = |code: Vec<u8>| {
        boot_and_run(class_with(
            "Main",
            pool.clone(),
            vec![method("main", "([Ljava/lang/String;)J", bytecode(code, 2, 0))],
        ))
    };
    assert_eq!(run(vec![0x12, 1, 0xac]), Step::Returned(Some(MistValue::Integer(-2))));
    assert_eq!(run(vec![0x13, 0, 2, 0xae]), Step::Returned(Some(MistValue::Float(0x4048_f5c3))));
    assert_eq!(run(vec![0x14, 0, 3, 0xad]), Step::Returned(Some(MistValue::Long(-3))));
    assert_eq!(
        run(vec![0x14, 0, 5, 0xaf]),
        Step::Returned(Some(MistValue::Double(2.0f64.to_bits())))
    );
    assert_eq!(run(vec![0x12, 8, 0xb0]), Step::Failed(MistError::Unimplemented));
    assert_eq!(run(vec![0x12, 7, 0xb0]), Step::Failed(MistError::InvalidReference));
    assert_eq!(run(vec![0x12, 0, 0xb0]), Step::Failed(MistError::InvalidReference));
    assert_eq!(run(vec![0x12, 9, 0xb0]), Step::Failed(MistError::InvalidReference));
    assert_eq!(run(vec![0x14, 0, 1, 0xad]), Step::Failed(MistError::InvalidReference));
}

#[test]
fn double_comparison_runs_in_the_machine() {
    // dconst_0; dconst_1; dcmpl; ireturn
    assert_eq!(
        run_bytes(vec![0x0e, 0x0f, 0x97, 0xac], 2, 0),
        Step::Returned(Some(MistValue::Integer(-1)))
    );
    // dconst_1; dneg; dconst_0; dcmpg; ireturn
    assert_eq!(
        run_bytes(vec![0x0f, 0x77, 0x0e, 0x98, 0xac], 2, 0),
        Step::Returned(Some(MistValue::Integer(-1)))
    );
}

#[test]
fn return_into_a_full_caller_stack_overflows() {
    // main (max_stack 0): invokestatic #6; ireturn    one()I: iconst_1; ireturn
    let pool = pool_with_method("Main", "one", "()I");
    let class = class_with(
        "Main",
        pool,
        vec![
            method(
                "main",
                "([Ljava/lang/String;)J",
                bytecode(vec![0xb8, 0x00, 0x06, 0xac], 0, 1),
            ),
            method("one", "()I", bytecode(vec![0x04, 0xac], 1, 0)),
        ],
    );
    let mut context = Context::new();
    context.add_class(class).unwrap();
    let mut machine = RuntimeContext::boot(&context, "Main").unwrap();
    assert_eq!(machine.run(100), Step::Failed(MistError::StackOverflow));
    assert_eq!(machine.depth(), 2);
}
