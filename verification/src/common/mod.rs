pub mod clock;
pub mod concurrent;
pub mod env;
pub mod ids;
pub mod json;
pub mod num;
pub mod order;
pub mod random;
pub mod strmap;
pub mod strset;
pub mod text;
