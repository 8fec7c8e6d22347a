pub mod x86_assembler_generator;
