pub mod ir;
pub mod labels;
pub mod semantic_analysis;
pub mod shapes;
pub mod tac_printer;
pub mod temps;
