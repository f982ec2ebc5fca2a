use vibe_lox::vm::chunk::{disassemble, Chunk, Constant, DisassembleError, OpCode};

fn number(text: &str) -> Constant {
    Constant::Number(text.to_string())
}

#[test]
fn write_and_read_constant() {
    let mut chunk = Chunk::new();
    let idx = chunk.add_constant(number("1.2"));
    chunk.write_op(OpCode::Constant, 1);
    chunk.write_byte(idx, 1);
    assert_eq!(chunk.code.len(), 2);
    assert_eq!(chunk.code[0], OpCode::Constant as u8);
    assert_eq!(chunk.constants[idx as usize], number("1.2"));
}

#[test]
fn disassemble_simple() {
    let mut chunk = Chunk::new();
    let idx = chunk.add_constant(number("42"));
    chunk.write_op(OpCode::Constant, 1);
    chunk.write_byte(idx, 1);
    chunk.write_op(OpCode::Return, 1);
    let text = disassemble(&chunk, "test").expect("valid bytecode");
    assert!(text.contains("constant"));
    assert!(text.contains("42"));
    assert!(text.contains("return"));
}

#[test]
fn new_chunk_is_empty() {
    let chunk = Chunk::new();
    assert!(chunk.code.is_empty());
    assert!(chunk.constants.is_empty());
    assert!(chunk.lines.is_empty());
}

#[test]
fn write_multiple_opcodes() {
    let mut chunk = Chunk::new();
    chunk.write_op(OpCode::Nil, 1);
    chunk.write_op(OpCode::True, 1);
    chunk.write_op(OpCode::False, 1);
    assert_eq!(chunk.code.len(), 3);
    assert_eq!(chunk.code[0], OpCode::Nil as u8);
    assert_eq!(chunk.code[1], OpCode::True as u8);
    assert_eq!(chunk.code[2], OpCode::False as u8);
}

#[test]
fn line_numbers_tracked() {
    let mut chunk = Chunk::new();
    chunk.write_op(OpCode::Constant, 1);
    chunk.write_byte(0, 1);
    chunk.write_op(OpCode::Return, 2);
    assert_eq!(chunk.lines.len(), 3);
    assert_eq!(chunk.lines[0], 1);
    assert_eq!(chunk.lines[1], 1);
    assert_eq!(chunk.lines[2], 2);
}

#[test]
fn add_number_constant() {
    let mut chunk = Chunk::new();
    let idx = chunk.add_constant(number("42"));
    assert_eq!(idx, 0);
    assert_eq!(chunk.constants.len(), 1);
    assert_eq!(chunk.constants[0], number("42"));
}

#[test]
fn add_string_constant() {
    let mut chunk = Chunk::new();
    let idx = chunk.add_constant(Constant::String("hello".to_string()));
    assert_eq!(idx, 0);
    assert!(matches!(&chunk.constants[0], Constant::String(s) if s == "hello"));
}

#[test]
fn add_multiple_constants() {
    let mut chunk = Chunk::new();
    let idx1 = chunk.add_constant(number("1"));
    let idx2 = chunk.add_constant(number("2"));
    let idx3 = chunk.add_constant(Constant::String("test".to_string()));
    assert_eq!(idx1, 0);
    assert_eq!(idx2, 1);
    assert_eq!(idx3, 2);
    assert_eq!(chunk.constants.len(), 3);
}

#[test]
fn constant_pool_max_255() {
    let mut chunk = Chunk::new();
    for i in 0..255usize {
        let idx = chunk.add_constant(Constant::Number(i.to_string()));
        assert_eq!(idx, i as u8);
    }
    assert_eq!(chunk.constants.len(), 255);
}

#[test]
fn write_and_read_u16_small() {
    let mut chunk = Chunk::new();
    chunk.write_u16(42, 1);
    assert_eq!(chunk.code.len(), 2);
    assert_eq!(chunk.read_u16(0), 42);
}

#[test]
fn write_and_read_u16_large() {
    let mut chunk = Chunk::new();
    chunk.write_u16(0xABCD, 1);
    assert_eq!(chunk.read_u16(0), 0xABCD);
}

#[test]
fn write_and_read_u16_max() {
    let mut chunk = Chunk::new();
    chunk.write_u16(0xFFFF, 1);
    assert_eq!(chunk.read_u16(0), 0xFFFF);
}

#[test]
fn write_and_read_u16_zero() {
    let mut chunk = Chunk::new();
    chunk.write_u16(0, 1);
    assert_eq!(chunk.read_u16(0), 0);
}

#[test]
fn disassemble_header_and_structure() {
    let mut chunk = Chunk::new();
    chunk.write_op(OpCode::Return, 1);
    let text = disassemble(&chunk, "test_chunk.lox").expect("valid bytecode");
    assert!(text.contains("Compiled from \"test_chunk.lox\""));
    assert!(text.contains("script;"));
    assert!(text.contains("Code:"));
}

#[test]
fn disassemble_all_simple_opcodes() {
    let mut chunk = Chunk::new();
    for op in [
        OpCode::Nil,
        OpCode::True,
        OpCode::False,
        OpCode::Pop,
        OpCode::Add,
        OpCode::Subtract,
        OpCode::Multiply,
        OpCode::Divide,
        OpCode::Negate,
        OpCode::Not,
        OpCode::Equal,
        OpCode::Greater,
        OpCode::Less,
        OpCode::Return,
    ] {
        chunk.write_op(op, 1);
    }
    let text = disassemble(&chunk, "test").expect("valid bytecode");
    assert!(text.contains("nil"));
    assert!(text.contains("add"));
    assert!(text.contains("subtract"));
    assert!(text.contains("return"));
}

#[test]
fn disassemble_constant_instruction() {
    let mut chunk = Chunk::new();
    let idx = chunk.add_constant(number("123.45"));
    chunk.write_op(OpCode::Constant, 1);
    chunk.write_byte(idx, 1);
    let text = disassemble(&chunk, "test").expect("valid bytecode");
    assert!(text.contains("constant"));
    assert!(text.contains("123.45"));
    assert!(text.contains("#0"));
}

#[test]
fn disassemble_string_constant() {
    let mut chunk = Chunk::new();
    let idx = chunk.add_constant(Constant::String("hello world".to_string()));
    chunk.write_op(OpCode::Constant, 1);
    chunk.write_byte(idx, 1);
    let text = disassemble(&chunk, "test").expect("valid bytecode");
    assert!(text.contains("hello world"));
}

#[test]
fn disassemble_jump_instruction() {
    let mut chunk = Chunk::new();
    chunk.write_op(OpCode::Jump, 1);
    chunk.write_u16(10, 1);
    let text = disassemble(&chunk, "test").expect("valid bytecode");
    assert!(text.contains("jump"));
    assert!(text.contains("-> 13"));
}

#[test]
fn disassemble_loop_instruction() {
    let mut chunk = Chunk::new();
    chunk.write_op(OpCode::Nil, 1);
    chunk.write_op(OpCode::Nil, 1);
    chunk.write_op(OpCode::Loop, 1);
    chunk.write_u16(2, 1);
    let text = disassemble(&chunk, "test").expect("valid bytecode");
    assert!(text.contains("loop"));
    assert!(text.contains("-> 3"));
}

#[test]
fn disassemble_local_variable_instructions() {
    let mut chunk = Chunk::new();
    chunk.write_op(OpCode::GetLocal, 1);
    chunk.write_byte(3, 1);
    chunk.write_op(OpCode::SetLocal, 1);
    chunk.write_byte(5, 1);
    let text = disassemble(&chunk, "test").expect("valid bytecode");
    assert!(text.contains("get_local"));
    assert!(text.contains("set_local"));
}

#[test]
fn disassemble_constants_section() {
    let mut chunk = Chunk::new();
    chunk.add_constant(number("42"));
    chunk.add_constant(Constant::String("hello".to_string()));
    chunk.write_op(OpCode::Return, 1);
    let text = disassemble(&chunk, "test").expect("valid bytecode");
    assert!(text.contains("Constants:"));
    assert!(text.contains("#0 = Number"));
    assert!(text.contains("42"));
    assert!(text.contains("#1 = String"));
    assert!(text.contains("\"hello\""));
}

#[test]
fn opcode_try_from_valid() {
    assert_eq!(OpCode::try_from(OpCode::Nil as u8), Ok(OpCode::Nil));
    assert_eq!(OpCode::try_from(OpCode::True as u8), Ok(OpCode::True));
    assert_eq!(OpCode::try_from(OpCode::Return as u8), Ok(OpCode::Return));
    assert_eq!(OpCode::try_from(OpCode::Method as u8), Ok(OpCode::Method));
}

#[test]
fn opcode_try_from_invalid() {
    assert_eq!(OpCode::try_from(255), Err(255));
    assert_eq!(OpCode::try_from(200), Err(200));
}

#[test]
fn default_chunk_is_empty() {
    let chunk = Chunk::default();
    assert!(chunk.code.is_empty());
    assert!(chunk.constants.is_empty());
    assert!(chunk.lines.is_empty());
}

#[test]
fn test_snake_case_names() {
    assert_eq!(OpCode::Constant.as_ref(), "constant");
    assert_eq!(OpCode::JumpIfFalse.as_ref(), "jump_if_false");
    assert_eq!(OpCode::GetLocal.as_ref(), "get_local");
    assert_eq!(OpCode::DefineGlobal.as_ref(), "define_global");
    assert_eq!(OpCode::CloseUpvalue.as_ref(), "close_upvalue");
    assert_eq!(OpCode::SuperInvoke.as_ref(), "super_invoke");
    assert_eq!(OpCode::GetSuper.as_ref(), "get_super");
    assert_eq!(OpCode::Return.as_ref(), "return");
}

#[test]
fn test_nested_function_disassembly() {
    let mut inner_chunk = Chunk::new();
    inner_chunk.add_constant(number("1"));
    inner_chunk.write_op(OpCode::Constant, 1);
    inner_chunk.write_byte(0, 1);
    inner_chunk.write_op(OpCode::Return, 1);
    let mut chunk = Chunk::new();
    let fn_idx = chunk.add_constant(Constant::Function {
        name: "add".to_string(),
        arity: 2,
        upvalue_count: 0,
        chunk: inner_chunk,
    });
    chunk.write_op(OpCode::Closure, 1);
    chunk.write_byte(fn_idx, 1);
    chunk.write_op(OpCode::Return, 1);
    let text = disassemble(&chunk, "test.lox").expect("valid bytecode");
    assert!(text.contains("script;"));
    assert!(text.contains("closure"));
    assert!(text.contains("fun add(_0, _1);  // arity=2"));
    assert!(text.contains("constant"));
}

#[test]
fn test_jump_target_format() {
    let mut chunk = Chunk::new();
    chunk.write_op(OpCode::JumpIfFalse, 1);
    chunk.write_u16(7, 1);
    for _ in 0..7 {
        chunk.write_op(OpCode::Pop, 1);
    }
    let text = disassemble(&chunk, "test").expect("valid bytecode");
    assert!(text.contains("jump_if_false"));
    assert!(text.contains("-> 10"));
}

#[test]
fn test_closure_upvalue_display() {
    let mut inner_chunk = Chunk::new();
    inner_chunk.write_op(OpCode::Return, 1);
    let mut chunk = Chunk::new();
    let fn_idx = chunk.add_constant(Constant::Function {
        name: "closure_fn".to_string(),
        arity: 0,
        upvalue_count: 2,
        chunk: inner_chunk,
    });
    chunk.write_op(OpCode::Closure, 1);
    chunk.write_byte(fn_idx, 1);
    chunk.write_byte(1, 1);
    chunk.write_byte(1, 1);
    chunk.write_byte(0, 1);
    chunk.write_byte(0, 1);
    chunk.write_op(OpCode::Return, 1);
    let text = disassemble(&chunk, "test").expect("valid bytecode");
    assert!(text.contains("closure"));
    assert!(text.contains("| local 1"));
    assert!(text.contains("| upvalue 0"));
}

#[test]
fn opcode_byte_round_trip() {
    for b in 0u8..=255 {
        if let Ok(op) = OpCode::try_from(b) {
            assert_eq!(op.to_byte(), b);
        }
    }
    assert_eq!(OpCode::try_from(OpCode::Closure.to_byte()), Ok(OpCode::Closure));
}

#[test]
fn write_u16_reads_back() {
    let mut chunk = Chunk::new();
    chunk.write_op(OpCode::Jump, 3);
    chunk.write_u16(0x1234, 3);
    assert_eq!(chunk.code[1], 0x12);
    assert_eq!(chunk.code[2], 0x34);
    assert_eq!(chunk.read_u16(1), 0x1234);
}

#[test]
fn disassemble_rejects_bad_bytes() {
    let mut chunk = Chunk::new();
    chunk.write_byte(250, 1);
    assert!(matches!(disassemble(&chunk, "t"), Err(DisassembleError::InvalidOpcode { byte: 250, offset: 0 })));
    let mut chunk = Chunk::new();
    chunk.write_op(OpCode::Jump, 1);
    chunk.write_byte(0, 1);
    assert!(matches!(disassemble(&chunk, "t"), Err(DisassembleError::Truncated { .. })));
}
